//! The sending side's view of one entity: its components and its publish and
//! delegation state, against which every outgoing command is checked.
use vstd::prelude::*;

use crate::entity_command::{EntityCommand, spec_command_component, spec_command_type};
use crate::entity_message::EntityMessageType;
use crate::sync::auth_channel::{AuthChannel, EntityAuthChannelState, spec_auth_step, spec_initial_auth_state};
use crate::sync::auth_channel_sender::spec_sendable;
use crate::types::{ComponentKind, HostType};

verus! {

/// The command kinds an entity channel handles itself.
pub open spec fn spec_channel_kind(t: EntityMessageType) -> bool {
    t == EntityMessageType::InsertComponent || t == EntityMessageType::RemoveComponent || spec_sendable(t)
}

/// Checks and queues the commands about one spawned entity.
pub struct EntityChannelSender {
    outgoing_commands: Vec<EntityCommand>,
    component_channels: Vec<ComponentKind>,
    auth_channel: AuthChannel,
}

impl EntityChannelSender {
    /// The components the entity has.
    pub closed spec fn components(&self) -> Set<ComponentKind> {
        self.component_channels@.to_set()
    }

    pub closed spec fn auth_state(&self) -> EntityAuthChannelState {
        self.auth_channel.state()
    }

    /// The commands checked and not yet handed on, oldest first.
    pub closed spec fn queued(&self) -> Seq<EntityCommand> {
        self.outgoing_commands@
    }

    pub closed spec fn wf(&self) -> bool {
        &&& self.component_channels@.no_duplicates()
        &&& self.auth_channel.queued() == Seq::<EntityCommand>::empty()
    }

    /// `command` is legal for this entity now: a new component inserted, a
    /// present one removed, or a publish or delegation step its state allows.
    pub open spec fn accepts(&self, command: EntityCommand) -> bool {
        match spec_command_type(command) {
            EntityMessageType::InsertComponent => !self.components().contains(spec_command_component(command)->0),
            EntityMessageType::RemoveComponent => self.components().contains(spec_command_component(command)->0),
            t => spec_sendable(t) && spec_auth_step(self.auth_state(), t) is Some,
        }
    }

    pub fn new(host_type: HostType) -> (r: EntityChannelSender)
        ensures
            r.wf(),
            r.components() == Set::<ComponentKind>::empty(),
            r.auth_state() == spec_initial_auth_state(host_type),
            r.queued() == Seq::<EntityCommand>::empty(),
    {
        let r = EntityChannelSender {
            outgoing_commands: Vec::new(),
            component_channels: Vec::new(),
            auth_channel: AuthChannel::new(host_type),
        };
        proof {
            assert(r.component_channels@.to_set() =~= Set::<ComponentKind>::empty());
        }
        r
    }

    /// The components the entity has.
    pub fn component_kinds(&self) -> (r: &Vec<ComponentKind>)
        ensures
            r@.to_set() == self.components(),
            r@.no_duplicates() <== self.wf(),
    {
        &self.component_channels
    }

    fn find_component(&self, component_kind: &ComponentKind) -> (r: Option<usize>)
        ensures
            match r {
                Some(i) => i < self.component_channels@.len() && self.component_channels@[i as int] == *component_kind,
                None => !self.component_channels@.contains(*component_kind),
            },
    {
        let mut i: usize = 0;
        while i < self.component_channels.len()
            invariant
                i <= self.component_channels@.len(),
                forall|j: int| 0 <= j < i ==> self.component_channels@[j] != *component_kind,
            decreases self.component_channels@.len() - i,
        {
            if self.component_channels[i] == *component_kind {
                return Some(i);
            }
            i += 1;
        }
        None
    }

    /// Checks a command about this entity and queues it: inserts and removes
    /// change the component set, publish and delegation commands the state.
    pub fn accept_message(&mut self, command: EntityCommand)
        requires
            old(self).wf(),
            spec_channel_kind(spec_command_type(command)),
            old(self).accepts(command),
        ensures
            final(self).wf(),
            final(self).queued() == old(self).queued().push(command),
            spec_command_type(command) == EntityMessageType::InsertComponent ==> final(self).components()
                == old(self).components().insert(spec_command_component(command)->0) && final(self).auth_state()
                == old(self).auth_state(),
            spec_command_type(command) == EntityMessageType::RemoveComponent ==> final(self).components()
                == old(self).components().remove(spec_command_component(command)->0) && final(self).auth_state()
                == old(self).auth_state(),
            spec_sendable(spec_command_type(command)) ==> final(self).components() == old(self).components()
                && final(self).auth_state() == spec_auth_step(old(self).auth_state(), spec_command_type(command))->0,
    {
        match command.get_type() {
            EntityMessageType::InsertComponent => {
                let component_kind = match command.component_kind() {
                    Some(k) => k,
                    None => ComponentKind::new(0),
                };
                let ghost before = self.component_channels@;
                self.component_channels.push(component_kind);
                proof {
                    before.lemma_push_to_set_commute(component_kind);
                    assert(self.component_channels@ =~= before.push(component_kind));
                    assert forall|i: int, j: int|
                        0 <= i < self.component_channels@.len() && 0 <= j < self.component_channels@.len() && i
                            != j implies self.component_channels@[i] != self.component_channels@[j] by {
                        if i < before.len() && j < before.len() {
                        } else if i < before.len() {
                            assert(before.contains(before[i]));
                        } else {
                            assert(before.contains(before[j]));
                        }
                    }
                }
                self.outgoing_commands.push(command);
            },
            EntityMessageType::RemoveComponent => {
                let component_kind = match command.component_kind() {
                    Some(k) => k,
                    None => ComponentKind::new(0),
                };
                let ghost before = self.component_channels@;
                match self.find_component(&component_kind) {
                    Some(i) => {
                        self.component_channels.remove(i);
                        proof {
                            let after = self.component_channels@;
                            assert(after =~= before.remove(i as int));
                            assert(after.to_set() =~= before.to_set().remove(component_kind)) by {
                                assert forall|k: ComponentKind| after.to_set().contains(k) <==> before.to_set().remove(
                                    component_kind,
                                ).contains(k) by {
                                    if after.contains(k) {
                                        let j = choose|j: int| 0 <= j < after.len() && after[j] == k;
                                        if j < i {
                                            assert(before[j] == k);
                                        } else {
                                            assert(before[j + 1] == k);
                                        }
                                    }
                                    if before.contains(k) && k != component_kind {
                                        let j = choose|j: int| 0 <= j < before.len() && before[j] == k;
                                        if j < i {
                                            assert(after[j] == k);
                                        } else {
                                            assert(j != i);
                                            assert(after[j - 1] == k);
                                        }
                                    }
                                }
                            }
                        }
                    },
                    None => {},
                }
                self.outgoing_commands.push(command);
            },
            _ => {
                self.auth_channel.validate_command(command);
                self.auth_channel.sender_drain_messages_into(&mut self.outgoing_commands);
            },
        }
    }

    /// Moves the queued commands, oldest first, to the end of `outgoing_commands`.
    pub fn drain_messages_into(&mut self, outgoing_commands: &mut Vec<EntityCommand>)
        requires
            old(self).wf(),
        ensures
            final(self).wf(),
            final(outgoing_commands)@ == old(outgoing_commands)@ + old(self).queued(),
            final(self).queued() == Seq::<EntityCommand>::empty(),
            final(self).components() == old(self).components(),
            final(self).auth_state() == old(self).auth_state(),
    {
        outgoing_commands.append(&mut self.outgoing_commands);
    }

    /// Takes the queued commands, oldest first.
    pub fn extract_outgoing_commands(&mut self) -> (r: Vec<EntityCommand>)
        requires
            old(self).wf(),
        ensures
            final(self).wf(),
            r@ == old(self).queued(),
            final(self).queued() == Seq::<EntityCommand>::empty(),
            final(self).components() == old(self).components(),
            final(self).auth_state() == old(self).auth_state(),
    {
        let mut out: Vec<EntityCommand> = Vec::new();
        self.drain_messages_into(&mut out);
        proof {
            assert(out@ =~= old(self).queued());
        }
        out
    }
}

} // verus!
