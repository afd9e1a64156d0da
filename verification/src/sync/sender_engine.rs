//! The sending side of the sync engine: one channel per spawned entity, and
//! the commands that passed their checks, in order.
use vstd::prelude::*;
use std::collections::HashMap;

use crate::entity_command::{EntityCommand, spec_command_entity, spec_command_type};
use crate::entity_message::EntityMessageType;
use crate::sync::auth_channel::spec_initial_auth_state;
use crate::sync::config::EngineConfig;
use crate::sync::entity_channel_sender::{EntityChannelSender, spec_channel_kind};
use crate::types::{ComponentKind, GlobalEntity, HostType};

verus! {

broadcast use vstd::std_specs::hash::group_hash_axioms;

/// Checks every outgoing command against the lifecycle of its entity.
pub struct SenderEngine {
    host_type: HostType,
    pub config: EngineConfig,
    entity_channels: HashMap<u64, EntityChannelSender>,
    outgoing_commands: Vec<EntityCommand>,
}

/// `command` is legal for `engine` now: a spawn of an entity it does not
/// have, a despawn of one it has, or a command its entity's channel accepts.
pub open spec fn spec_engine_accepts(engine: SenderEngine, command: EntityCommand) -> bool {
    let e = spec_command_entity(command).0;
    match spec_command_type(command) {
        EntityMessageType::SpawnEntity => !engine.channels().contains_key(e),
        EntityMessageType::DespawnEntity => engine.channels().contains_key(e),
        t => spec_channel_kind(t) && engine.channels().contains_key(e) && engine.channels()[e].accepts(command),
    }
}

impl SenderEngine {
    /// The channel of each spawned entity, by global entity number.
    pub closed spec fn channels(&self) -> Map<u64, EntityChannelSender> {
        self.entity_channels@
    }

    /// The commands that passed their checks and were not taken yet, oldest first.
    pub closed spec fn outgoing(&self) -> Seq<EntityCommand> {
        self.outgoing_commands@
    }

    pub closed spec fn spec_host_type(&self) -> HostType {
        self.host_type
    }

    pub closed spec fn wf(&self) -> bool {
        forall|e: u64| #[trigger] self.entity_channels@.contains_key(e) ==> self.entity_channels@[e].wf()
            && self.entity_channels@[e].queued() == Seq::<EntityCommand>::empty()
    }

    pub fn new(host_type: HostType) -> (r: SenderEngine)
        ensures
            r.wf(),
            r.spec_host_type() == host_type,
            r.channels() == Map::<u64, EntityChannelSender>::empty(),
            r.outgoing() == Seq::<EntityCommand>::empty(),
    {
        SenderEngine {
            host_type,
            config: EngineConfig::default(),
            entity_channels: HashMap::new(),
            outgoing_commands: Vec::new(),
        }
    }

    /// Takes the commands that passed their checks, oldest first.
    pub fn take_outgoing_commands(&mut self) -> (r: Vec<EntityCommand>)
        requires
            old(self).wf(),
        ensures
            final(self).wf(),
            r@ == old(self).outgoing(),
            final(self).outgoing() == Seq::<EntityCommand>::empty(),
            final(self).channels() == old(self).channels(),
    {
        let mut taken: Vec<EntityCommand> = Vec::new();
        std::mem::swap(&mut taken, &mut self.outgoing_commands);
        taken
    }

    /// Whether the entity has been spawned and not despawned.
    pub fn has_entity(&self, global_entity: &GlobalEntity) -> (r: bool)
        ensures
            r == self.channels().contains_key(global_entity.0),
    {
        self.entity_channels.contains_key(&global_entity.0)
    }

    /// The components the entity has, if it is spawned.
    pub fn component_kinds(&self, global_entity: &GlobalEntity) -> (r: Option<Vec<ComponentKind>>)
        ensures
            match r {
                Some(v) => self.channels().contains_key(global_entity.0) && v@.to_set()
                    == self.channels()[global_entity.0].components(),
                None => !self.channels().contains_key(global_entity.0),
            },
    {
        match self.entity_channels.get(&global_entity.0) {
            Some(channel) => Some(channel.component_kinds().clone()),
            None => None,
        }
    }

    /// Checks a command against its entity's lifecycle and queues it: a spawn
    /// opens the entity's channel, a despawn closes it, and every other
    /// command goes through the channel.
    pub fn accept_command(&mut self, command: EntityCommand)
        requires
            old(self).wf(),
            spec_engine_accepts(*old(self), command),
        ensures
            final(self).wf(),
            final(self).outgoing() == old(self).outgoing().push(command),
            final(self).spec_host_type() == old(self).spec_host_type(),
            ({
                let e = spec_command_entity(command).0;
                match spec_command_type(command) {
                    EntityMessageType::SpawnEntity => {
                        &&& final(self).channels().dom() == old(self).channels().dom().insert(e)
                        &&& final(self).channels()[e].components() == Set::<ComponentKind>::empty()
                        &&& final(self).channels()[e].auth_state() == spec_initial_auth_state(old(self).spec_host_type())
                    },
                    EntityMessageType::DespawnEntity => final(self).channels() == old(self).channels().remove(e),
                    _ => {
                        &&& final(self).channels().dom() == old(self).channels().dom()
                        &&& final(self).channels()[e].components() == (match spec_command_type(command) {
                            EntityMessageType::InsertComponent => old(self).channels()[e].components().insert(
                                crate::entity_command::spec_command_component(command)->0,
                            ),
                            EntityMessageType::RemoveComponent => old(self).channels()[e].components().remove(
                                crate::entity_command::spec_command_component(command)->0,
                            ),
                            _ => old(self).channels()[e].components(),
                        })
                        &&& final(self).channels()[e].auth_state() == (if spec_command_type(command)
                            == EntityMessageType::InsertComponent || spec_command_type(command)
                            == EntityMessageType::RemoveComponent {
                            old(self).channels()[e].auth_state()
                        } else {
                            crate::sync::auth_channel::spec_auth_step(
                                old(self).channels()[e].auth_state(),
                                spec_command_type(command),
                            )->0
                        })
                    },
                }
            }),
            forall|k: u64| k != spec_command_entity(command).0 && #[trigger] old(self).channels().contains_key(k)
                ==> final(self).channels().contains_key(k) && final(self).channels()[k] == old(self).channels()[k],
    {
        let entity = command.entity();
        match command.get_type() {
            EntityMessageType::SpawnEntity => {
                self.entity_channels.insert(entity.0, EntityChannelSender::new(self.host_type));
                self.outgoing_commands.push(command);
                proof {
                    assert forall|e: u64| #[trigger] self.entity_channels@.contains_key(e) implies self.entity_channels@[e].wf()
                        && self.entity_channels@[e].queued() == Seq::<EntityCommand>::empty() by {
                        if e != entity.0 {
                            assert(old(self).entity_channels@.contains_key(e));
                        }
                    }
                }
            },
            EntityMessageType::DespawnEntity => {
                self.entity_channels.remove(&entity.0);
                self.outgoing_commands.push(command);
                proof {
                    assert forall|e: u64| #[trigger] self.entity_channels@.contains_key(e) implies self.entity_channels@[e].wf()
                        && self.entity_channels@[e].queued() == Seq::<EntityCommand>::empty() by {
                        assert(old(self).entity_channels@.contains_key(e));
                    }
                }
            },
            _ => {
                proof {
                    assert(self.entity_channels@.contains_key(entity.0));
                }
                let mut channel = match self.entity_channels.remove(&entity.0) {
                    Some(c) => c,
                    None => EntityChannelSender::new(self.host_type),
                };
                channel.accept_message(command);
                channel.drain_messages_into(&mut self.outgoing_commands);
                self.entity_channels.insert(entity.0, channel);
                proof {
                    assert(self.outgoing_commands@ =~= old(self).outgoing_commands@.push(command));
                    assert forall|e: u64| #[trigger] self.entity_channels@.contains_key(e) implies self.entity_channels@[e].wf()
                        && self.entity_channels@[e].queued() == Seq::<EntityCommand>::empty() by {
                        if e != entity.0 {
                            assert(old(self).entity_channels@.contains_key(e));
                        }
                    }
                }
            },
        }
    }
}

} // verus!
