//! The publish and delegation lifecycle of one entity.
use vstd::prelude::*;

use crate::entity_command::{EntityCommand, spec_command_type};
use crate::entity_message::EntityMessageType;
use crate::sync::auth_channel_sender::{AuthChannelSender, spec_sendable};
use crate::types::HostType;

verus! {

/// Where an entity stands in its publish and delegation lifecycle.
#[derive(Debug, Clone, Copy, PartialEq, Eq, Structural)]
pub enum EntityAuthChannelState {
    Unpublished,
    Published,
    Delegated,
}

/// The state after a message of kind `t`, or `None` where the kind is not
/// legal in `s`: publish and unpublish toggle publication, delegation is
/// enabled on a published entity and disabled back to published, and
/// authority is set only on a delegated entity.
pub open spec fn spec_auth_step(s: EntityAuthChannelState, t: EntityMessageType) -> Option<EntityAuthChannelState> {
    match t {
        EntityMessageType::PublishEntity => if s == EntityAuthChannelState::Unpublished {
            Some(EntityAuthChannelState::Published)
        } else {
            None
        },
        EntityMessageType::UnpublishEntity => if s == EntityAuthChannelState::Published {
            Some(EntityAuthChannelState::Unpublished)
        } else {
            None
        },
        EntityMessageType::EnableDelegationEntity => if s == EntityAuthChannelState::Published {
            Some(EntityAuthChannelState::Delegated)
        } else {
            None
        },
        EntityMessageType::DisableDelegationEntity => if s == EntityAuthChannelState::Delegated {
            Some(EntityAuthChannelState::Published)
        } else {
            None
        },
        EntityMessageType::UpdateAuthority => if s == EntityAuthChannelState::Delegated {
            Some(EntityAuthChannelState::Delegated)
        } else {
            None
        },
        _ => None,
    }
}

/// Where a new entity starts: a client's entities are unpublished, a
/// server's are published.
pub open spec fn spec_initial_auth_state(host_type: HostType) -> EntityAuthChannelState {
    match host_type {
        HostType::Client => EntityAuthChannelState::Unpublished,
        HostType::Server => EntityAuthChannelState::Published,
    }
}

/// The sending side's view of one entity's publish and delegation state.
pub struct AuthChannel {
    sender: AuthChannelSender,
}

impl AuthChannel {
    pub closed spec fn state(&self) -> EntityAuthChannelState {
        self.sender.state()
    }

    pub closed spec fn queued(&self) -> Seq<EntityCommand> {
        self.sender.queued()
    }

    pub fn new(host_type: HostType) -> (r: AuthChannel)
        ensures
            r.state() == spec_initial_auth_state(host_type),
            r.queued() == Seq::<EntityCommand>::empty(),
    {
        let state = match host_type {
            HostType::Client => EntityAuthChannelState::Unpublished,
            HostType::Server => EntityAuthChannelState::Published,
        };
        AuthChannel { sender: AuthChannelSender::new_in(state) }
    }

    /// Applies a publish or delegation command that is legal in the current
    /// state, and queues it for sending.
    pub fn validate_command(&mut self, command: EntityCommand)
        requires
            spec_sendable(spec_command_type(command)),
            spec_auth_step(old(self).state(), spec_command_type(command)) is Some,
        ensures
            final(self).state() == spec_auth_step(old(self).state(), spec_command_type(command))->0,
            final(self).queued() == old(self).queued().push(command),
    {
        self.sender.accept_message(command);
    }

    /// Moves the queued commands, oldest first, to the end of `commands`.
    pub fn sender_drain_messages_into(&mut self, commands: &mut Vec<EntityCommand>)
        ensures
            final(commands)@ == old(commands)@ + old(self).queued(),
            final(self).queued() == Seq::<EntityCommand>::empty(),
            final(self).state() == old(self).state(),
    {
        self.sender.drain_messages_into(commands);
    }
}

} // verus!
