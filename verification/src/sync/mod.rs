//! Keeps one peer's entities and components in step with the other's over an
//! unordered reliable transport: the sending side checks that every command
//! is legal for the entity's lifecycle, the receiving side reorders messages
//! per entity and per component so that each is applied only when legal.
pub mod auth_channel;
pub mod auth_channel_receiver;
pub mod auth_channel_sender;
pub mod component_channel;
pub mod config;
pub mod entity_channel_receiver;
pub mod entity_channel_sender;
pub mod engine;
pub mod event;
pub mod pool;
pub mod sender_engine;

use vstd::prelude::*;

verus! {
} // verus!
