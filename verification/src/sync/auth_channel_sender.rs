//! The publish and delegation lifecycle of one entity, as the sending side drives it.
use vstd::prelude::*;

use crate::entity_command::{EntityCommand, spec_command_type};
use crate::entity_message::EntityMessageType;
use crate::sync::auth_channel::{EntityAuthChannelState, spec_auth_step};

verus! {

/// Checks each publish or delegation command against the entity's state and
/// queues the legal ones for sending.
pub struct AuthChannelSender {
    state: EntityAuthChannelState,
    outgoing_commands: Vec<EntityCommand>,
}

/// The commands a sender can check: authority changes are not among them.
pub open spec fn spec_sendable(t: EntityMessageType) -> bool {
    t == EntityMessageType::PublishEntity || t == EntityMessageType::UnpublishEntity || t == EntityMessageType::EnableDelegationEntity
        || t == EntityMessageType::DisableDelegationEntity
}

impl AuthChannelSender {
    pub closed spec fn state(&self) -> EntityAuthChannelState {
        self.state
    }

    pub closed spec fn queued(&self) -> Seq<EntityCommand> {
        self.outgoing_commands@
    }

    /// A sender for an entity that is not published.
    pub fn new() -> (r: AuthChannelSender)
        ensures
            r.state() == EntityAuthChannelState::Unpublished,
            r.queued() == Seq::<EntityCommand>::empty(),
    {
        AuthChannelSender { state: EntityAuthChannelState::Unpublished, outgoing_commands: Vec::new() }
    }

    /// A sender for an entity in `state`.
    pub fn new_in(state: EntityAuthChannelState) -> (r: AuthChannelSender)
        ensures
            r.state() == state,
            r.queued() == Seq::<EntityCommand>::empty(),
    {
        AuthChannelSender { state, outgoing_commands: Vec::new() }
    }

    /// Applies a publish or delegation command that is legal in the current
    /// state, and queues it.
    pub fn accept_message(&mut self, command: EntityCommand)
        requires
            spec_sendable(spec_command_type(command)),
            spec_auth_step(old(self).state(), spec_command_type(command)) is Some,
        ensures
            final(self).state() == spec_auth_step(old(self).state(), spec_command_type(command))->0,
            final(self).queued() == old(self).queued().push(command),
    {
        match command.get_type() {
            EntityMessageType::PublishEntity => {
                self.state = EntityAuthChannelState::Published;
            },
            EntityMessageType::UnpublishEntity => {
                self.state = EntityAuthChannelState::Unpublished;
            },
            EntityMessageType::EnableDelegationEntity => {
                self.state = EntityAuthChannelState::Delegated;
            },
            _ => {
                self.state = EntityAuthChannelState::Published;
            },
        }
        self.outgoing_commands.push(command);
    }

    /// Moves the queued commands, oldest first, to the end of `commands`.
    pub fn drain_messages_into(&mut self, commands: &mut Vec<EntityCommand>)
        ensures
            final(commands)@ == old(commands)@ + old(self).queued(),
            final(self).queued() == Seq::<EntityCommand>::empty(),
            final(self).state() == old(self).state(),
    {
        commands.append(&mut self.outgoing_commands);
    }
}

} // verus!
