use vstd::prelude::*;

pub mod auth_channel;
pub mod checked_map;
pub mod entity_action_receiver;
pub mod entity_command;
pub mod entity_event;
pub mod entity_message;
pub mod entity_property;
pub mod entity_waitlist;
pub mod errors;
pub mod host_auth_handler;
pub mod host_world;
pub mod local_entity_map;
pub mod local_entity_record;
pub mod ordered_ids;
pub mod property;
pub mod property_mutator;
pub mod sync;
pub mod text;
pub mod types;
pub mod wrapping_number;

verus! {
} // verus!
