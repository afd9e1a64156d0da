//! The receiving side of the sync engine: the single entry for the raw,
//! unordered stream of entity messages and the single exit for the ordered
//! messages the world applies. Each entity has its own channel, so a
//! delayed message of one entity never holds up another.
use vstd::prelude::*;
use std::collections::HashMap;
use vstd::multiset::Multiset;

use crate::entity_message::{EntityMessage, spec_message_entity, spec_message_retarget};
use crate::sync::auth_channel::EntityAuthChannelState;
use crate::sync::config::EngineConfig;
use crate::sync::entity_channel_receiver::{
    EntityChannelReceiver, EntityModel, SyncLife, lemma_sync_replay_retarget, spec_entity_epoch_after,
    spec_entity_queued, spec_entity_rest, spec_entity_run, spec_entity_spawned_after, spec_fresh_entity_model,
    spec_sync_replay,
};
use crate::ordered_ids::spec_push_position;
use crate::wrapping_number::spec_sequence_greater_than;
use crate::sync::pool::{
    Tagged, lemma_other_count, lemma_strip_back, lemma_strip_count, spec_all_for, spec_ids_once, spec_strip_tags,
    spec_tag,
};
use crate::types::{ComponentKind, EntityKey, HostType, MessageIndex, lemma_keyed_insert, lemma_keyed_remove, spec_keyed};

verus! {

broadcast use vstd::std_specs::hash::group_hash_axioms;

/// What an entity with no channel yet is: absent, with nothing present.
pub open spec fn spec_fresh_sync_life() -> SyncLife {
    SyncLife { spawned: false, inserted: Set::empty(), auth: EntityAuthChannelState::Unpublished }
}

/// The kinds of message that are answers to requests, which this engine does not take.
pub open spec fn spec_is_response<E: Copy + Eq>(m: EntityMessage<E>) -> bool {
    m is EnableDelegationResponse || m is RequestAuthority || m is ReleaseAuthority || m is MigrateResponse
}

/// The log kept for `entity` in `logs`: empty where none is kept.
spec fn spec_log_at<E: Copy + Eq>(
    logs: Map<E, Seq<(MessageIndex, EntityMessage<E>)>>,
    entity: E,
) -> Seq<(MessageIndex, EntityMessage<E>)> {
    if logs.contains_key(entity) {
        logs[entity]
    } else {
        Seq::empty()
    }
}

/// A channel as the engine keeps it between calls: sound, of the engine's
/// side, drained, and holding with what it handed out no more than was taken
/// in for its entity.
spec fn spec_channel_ok<E: Copy + Eq>(
    host_type: HostType,
    c: EntityChannelReceiver,
    accepted: Seq<(MessageIndex, EntityMessage<E>)>,
    delivered: Seq<(MessageIndex, EntityMessage<E>)>,
) -> bool {
    &&& c.wf()
    &&& c.spec_host_type() == host_type
    &&& c.outgoing() == Seq::<EntityMessage<()>>::empty()
    &&& c.drained_life() == c.life()
    &&& c.pool().add(spec_strip_tags(delivered).to_multiset()).subset_of(spec_strip_tags(accepted).to_multiset())
}

/// The logs of one entity: all addressed to it, and nothing handed out that
/// was not taken in.
spec fn spec_log_ok<E: Copy + Eq>(
    accepted: Seq<(MessageIndex, EntityMessage<E>)>,
    delivered: Seq<(MessageIndex, EntityMessage<E>)>,
    entity: E,
) -> bool {
    &&& spec_strip_tags(delivered).to_multiset().subset_of(spec_strip_tags(accepted).to_multiset())
    &&& spec_all_for(accepted, entity)
    &&& spec_all_for(delivered, entity)
}

spec fn spec_engine_ok<E: Copy + Eq>(
    host_type: HostType,
    channels: Map<E, EntityChannelReceiver>,
    accepted: Map<E, Seq<(MessageIndex, EntityMessage<E>)>>,
    delivered: Map<E, Seq<(MessageIndex, EntityMessage<E>)>>,
) -> bool {
    &&& forall|e: E| #[trigger]
        channels.contains_key(e) ==> spec_channel_ok(
            host_type,
            channels[e],
            spec_log_at(accepted, e),
            spec_log_at(delivered, e),
        )
    &&& forall|e: E| #[trigger] spec_log_ok(spec_log_at(accepted, e), spec_log_at(delivered, e), e)
}

/// Orders incoming entity messages, one channel per entity.
#[verifier::reject_recursive_types(E)]
pub struct Engine<E: EntityKey> {
    host_type: HostType,
    pub config: EngineConfig,
    outgoing_events: Vec<EntityMessage<E>>,
    entity_channels: HashMap<u64, EntityChannelReceiver>,
    accepted_log: Ghost<Map<E, Seq<(MessageIndex, EntityMessage<E>)>>>,
    delivered_log: Ghost<Map<E, Seq<(MessageIndex, EntityMessage<E>)>>>,
}

impl<E: EntityKey> Engine<E> {
    pub closed spec fn channels(&self) -> Map<E, EntityChannelReceiver> {
        spec_keyed(self.entity_channels@)
    }

    /// The ordered messages not yet taken, oldest first.
    pub closed spec fn outgoing(&self) -> Seq<EntityMessage<E>> {
        self.outgoing_events@
    }

    pub closed spec fn spec_host_type(&self) -> HostType {
        self.host_type
    }

    /// Every message taken in for `entity`, in the order it came, with the
    /// index it came under.
    pub closed spec fn accepted(&self, entity: E) -> Seq<(MessageIndex, EntityMessage<E>)> {
        spec_log_at(self.accepted_log@, entity)
    }

    /// Every message handed out for `entity` so far, oldest first, with the
    /// index it came under.
    pub closed spec fn delivered(&self, entity: E) -> Seq<(MessageIndex, EntityMessage<E>)> {
        spec_log_at(self.delivered_log@, entity)
    }

    /// The messages of `entity` waiting in its channel; none where it has none.
    pub open spec fn buffer_of(&self, entity: E) -> Seq<(MessageIndex, EntityMessage<()>)> {
        self.model_of(entity).2
    }

    /// The index of the last spawn or despawn of `entity` that took effect.
    pub open spec fn epoch_of(&self, entity: E) -> Option<MessageIndex> {
        self.model_of(entity).1
    }

    /// The bookkeeping of `entity`'s channel; that of a fresh one where it has none.
    pub open spec fn model_of(&self, entity: E) -> EntityModel {
        if self.channels().contains_key(entity) {
            self.channels()[entity].model()
        } else {
            spec_fresh_entity_model()
        }
    }

    /// What the messages handed out so far say of `entity`.
    pub open spec fn life_of(&self, entity: E) -> SyncLife {
        if self.channels().contains_key(entity) {
            self.channels()[entity].life()
        } else {
            spec_fresh_sync_life()
        }
    }

    pub closed spec fn wf(&self) -> bool {
        &&& spec_engine_ok(self.host_type, self.channels(), self.accepted_log@, self.delivered_log@)
    }

    pub fn new(host_type: HostType) -> (r: Engine<E>)
        ensures
            r.wf(),
            r.spec_host_type() == host_type,
            r.channels() == Map::<E, EntityChannelReceiver>::empty(),
            r.outgoing() == Seq::<EntityMessage<E>>::empty(),
            forall|e: E| #[trigger] r.accepted(e) == Seq::<(MessageIndex, EntityMessage<E>)>::empty(),
            forall|e: E| #[trigger] r.delivered(e) == Seq::<(MessageIndex, EntityMessage<E>)>::empty(),
    {
        let r = Engine {
            host_type,
            config: EngineConfig::default(),
            outgoing_events: Vec::new(),
            entity_channels: HashMap::new(),
            accepted_log: Ghost(Map::empty()),
            delivered_log: Ghost(Map::empty()),
        };
        proof {
            assert forall|e: E| #[trigger]
                spec_log_ok(spec_log_at(r.accepted_log@, e), spec_log_at(r.delivered_log@, e), e) by {
                broadcast use vstd::seq_lib::group_to_multiset_ensures;
                assert(spec_strip_tags(r.delivered(e)).to_multiset().len() == 0);
            }
        }
        r
    }

    /// Takes in one message. `Noop` is dropped; every other message goes to
    /// its entity's channel, which is opened on first sight, and what that
    /// channel hands out is appended to the ordered messages: legal for the
    /// entity one after the other, from what it was before to what it is now.
    /// Unless the message is older than the entity's last spawn or despawn,
    /// the channel's bookkeeping, with the message queued by its index, runs
    /// from the front (`spec_entity_run`): what that run hands out is what is
    /// appended, addressed to the entity, and where it ends is the channel's
    /// new bookkeeping. No other entity's channel changes. The caller has
    /// already dropped duplicates: a message taken in before must not come
    /// again, nor any message under the index of the entity's last spawn or
    /// despawn.
    pub fn accept_message(&mut self, id: MessageIndex, msg: EntityMessage<E>, log: bool)
        requires
            old(self).wf(),
            !spec_is_response(msg),
            msg !is Noop ==> old(self).epoch_of(spec_message_entity(msg)->0) != Some(id),
            msg !is Noop ==> !old(self).accepted(spec_message_entity(msg)->0).contains((id, msg)),
        ensures
            final(self).wf(),
            final(self).spec_host_type() == old(self).spec_host_type(),
            msg is Noop ==> final(self).channels() == old(self).channels() && final(self).outgoing() == old(self).outgoing(),
            msg !is Noop ==> ({
                let e = spec_message_entity(msg)->0;
                let appended = final(self).outgoing().subrange(
                    old(self).outgoing().len() as int,
                    final(self).outgoing().len() as int,
                );
                &&& old(self).outgoing().is_prefix_of(final(self).outgoing())
                &&& forall|i: int| 0 <= i < appended.len() ==> spec_message_entity(#[trigger] appended[i]) == Some(e)
                &&& spec_sync_replay(old(self).spec_host_type(), old(self).life_of(e), appended) == Some(
                    final(self).life_of(e),
                )
                &&& final(self).channels().dom() == old(self).channels().dom().insert(e)
                &&& forall|k: E| k != e && #[trigger] old(self).channels().contains_key(k) ==> final(self).channels()[k] == old(self).channels()[k]
                &&& final(self).accepted(e) == old(self).accepted(e).push((id, msg))
                &&& old(self).delivered(e).is_prefix_of(final(self).delivered(e))
                &&& final(self).delivered(e).len() == old(self).delivered(e).len() + appended.len()
                &&& forall|i: int| 0 <= i < appended.len() ==> final(self).delivered(e)[old(self).delivered(e).len() + i].1
                    == #[trigger] appended[i]
                &&& (old(self).epoch_of(e) matches Some(l) && spec_sequence_greater_than(l, id)) ==> {
                    &&& appended == Seq::<EntityMessage<E>>::empty()
                    &&& final(self).model_of(e) == old(self).model_of(e)
                    &&& final(self).buffer_of(e) == old(self).buffer_of(e)
                    &&& final(self).epoch_of(e) == old(self).epoch_of(e)
                    &&& final(self).life_of(e).spawned == old(self).life_of(e).spawned
                }
                &&& !(old(self).epoch_of(e) matches Some(l) && spec_sequence_greater_than(l, id)) ==> {
                    let b1 = old(self).buffer_of(e).insert(
                        spec_push_position(old(self).buffer_of(e), id, old(self).buffer_of(e).len() as int),
                        (id, spec_message_retarget(msg, ())),
                    );
                    let run = spec_entity_run(
                        old(self).spec_host_type(),
                        spec_entity_queued(old(self).model_of(e), id, spec_message_retarget(msg, ())),
                    );
                    &&& appended == run.1.map_values(|m: EntityMessage<()>| spec_message_retarget(m, e))
                    &&& final(self).model_of(e) == run.0
                    &&& final(self).buffer_of(e) == spec_entity_rest(old(self).life_of(e).spawned, b1)
                    &&& final(self).life_of(e).spawned == spec_entity_spawned_after(old(self).life_of(e).spawned, b1)
                    &&& final(self).epoch_of(e) == spec_entity_epoch_after(old(self).epoch_of(e), old(self).life_of(e).spawned, b1)
                }
                &&& forall|k: E| k != e ==> #[trigger] final(self).accepted(k) == old(self).accepted(k)
                &&& forall|k: E| k != e ==> #[trigger] final(self).delivered(k) == old(self).delivered(k)
            }),
            msg is Noop ==> forall|k: E| #[trigger] final(self).accepted(k) == old(self).accepted(k),
            msg is Noop ==> forall|k: E| #[trigger] final(self).delivered(k) == old(self).delivered(k),
    {
        match msg {
            EntityMessage::Noop => {
                return;
            },
            _ => {},
        }
        let entity = match msg.entity() {
            Some(e) => e,
            None => {
                return;
            },
        };
        proof {
            if self.channels().contains_key(entity) {
                assert(spec_channel_ok(
                    self.host_type,
                    self.channels()[entity],
                    self.accepted(entity),
                    self.delivered(entity),
                ));
            }
            assert(spec_log_ok(self.accepted(entity), self.delivered(entity), entity));
        }
        let ghost before_map = self.channels();
        let ghost stored0 = self.entity_channels@;
        let key = entity.key();
        let mut channel = match self.entity_channels.remove(&key) {
            Some(c) => c,
            None => EntityChannelReceiver::new(self.host_type),
        };
        let ghost life0 = channel.life();
        let ghost m_start = channel.model();
        proof {
            channel.lemma_model_parts();
        }
        let ghost out0 = self.outgoing_events@;
        let ghost p0 = channel.pool();
        let ghost x: Tagged = (id, spec_message_retarget(msg, ()));
        let ghost a0 = self.accepted(entity);
        let ghost d0 = self.delivered(entity);
        proof {
            if !before_map.contains_key(entity) {
                assert(p0.add(spec_strip_tags(d0).to_multiset()) =~= spec_strip_tags(d0).to_multiset());
            }
        }
        let _ = log;
        channel.accept_message(id, msg.strip_entity());
        let ghost run = channel.outgoing();
        let ghost run_ids = channel.out_ids();
        let ghost p1 = channel.pool();
        channel.drain_messages_into(entity, &mut self.outgoing_events);
        self.entity_channels.insert(key, channel);
        proof {
            channel.lemma_model_parts();
            lemma_keyed_insert::<E, EntityChannelReceiver>(stored0.remove(key), entity, channel);
            lemma_keyed_remove::<E, EntityChannelReceiver>(stored0, entity);
            assert(self.channels() == before_map.remove(entity).insert(entity, channel));
            let newpart = Seq::new(
                run.len(),
                |i: int| (run_ids[i], spec_message_retarget(run[i], entity)),
            );
            assert(spec_strip_tags(newpart) =~= spec_tag(run_ids, run)) by {
                assert forall|i: int| 0 <= i < run.len() implies #[trigger] spec_strip_tags(newpart)[i] == spec_tag(
                    run_ids,
                    run,
                )[i] by {
                    lemma_strip_back(run[i], entity);
                }
            }
            assert(spec_strip_tags(d0 + newpart) =~= spec_strip_tags(d0) + spec_strip_tags(newpart));
            assert(spec_strip_tags(a0.push((id, msg))) =~= spec_strip_tags(a0).push(x));
            vstd::seq_lib::to_multiset_build(spec_strip_tags(a0), x);
            lemma_pool_step(p0, p1, channel.pool(), spec_strip_tags(d0), spec_tag(run_ids, run), spec_strip_tags(a0).to_multiset(), x);
            self.accepted_log = Ghost(self.accepted_log@.insert(entity, a0.push((id, msg))));
            self.delivered_log = Ghost(self.delivered_log@.insert(entity, d0 + newpart));
            assert(self.accepted(entity) == a0.push((id, msg)));
            assert(self.delivered(entity) == d0 + newpart);
            let appended = self.outgoing_events@.subrange(out0.len() as int, self.outgoing_events@.len() as int);
            let mapped = run.map_values(|m: EntityMessage<()>| spec_message_retarget(m, entity));
            assert(appended =~= mapped);
            assert(old(self).model_of(entity) == m_start);
            if !(old(self).epoch_of(entity) matches Some(l) && spec_sequence_greater_than(l, id)) {
                let r = spec_entity_run(self.host_type, spec_entity_queued(m_start, id, spec_message_retarget(msg, ())));
                assert(run =~= r.1);
            } else {
                assert(run =~= Seq::<EntityMessage<()>>::empty());
                assert(appended =~= Seq::<EntityMessage<E>>::empty());
            }
            lemma_sync_replay_retarget(self.host_type, life0, run, entity);
            assert(life0 == old(self).life_of(entity));
            assert forall|i: int| 0 <= i < appended.len() implies spec_message_entity(#[trigger] appended[i]) == Some(
                entity,
            ) by {
                crate::sync::entity_channel_receiver::lemma_sync_replay_kinds(self.host_type, life0, run, i);
            }
            assert(out0.is_prefix_of(self.outgoing_events@)) by {
                assert(forall|j: int| 0 <= j < out0.len() ==> self.outgoing_events@[j] == out0[j]);
            }
            assert forall|i: int| 0 <= i < appended.len() implies self.delivered(entity)[d0.len() + i].1
                == #[trigger] appended[i] by {
                assert(self.delivered(entity)[d0.len() + i] == newpart[i]);
            }
            assert(d0.is_prefix_of(self.delivered(entity)));
            assert forall|e: E| #[trigger] self.channels().contains_key(e) implies spec_channel_ok(
                self.host_type,
                self.channels()[e],
                spec_log_at(self.accepted_log@, e),
                spec_log_at(self.delivered_log@, e),
            ) by {
                if e != entity {
                    assert(before_map.contains_key(e));
                    assert(spec_log_at(self.accepted_log@, e) == old(self).accepted(e));
                    assert(spec_log_at(self.delivered_log@, e) == old(self).delivered(e));
                }
            }
            assert forall|e: E| #[trigger]
                spec_log_ok(spec_log_at(self.accepted_log@, e), spec_log_at(self.delivered_log@, e), e) by {
                if e != entity {
                    assert(spec_log_ok(old(self).accepted(e), old(self).delivered(e), e));
                    assert(spec_log_at(self.accepted_log@, e) == old(self).accepted(e));
                    assert(spec_log_at(self.delivered_log@, e) == old(self).delivered(e));
                } else {
                    let a1 = self.accepted(e);
                    let d1 = self.delivered(e);
                    assert forall|i: int| 0 <= i < a1.len() implies spec_message_entity(#[trigger] a1[i].1) == Some(e) by {
                        if i < a0.len() {
                            assert(a1[i] == a0[i]);
                        }
                    }
                    assert forall|i: int| 0 <= i < d1.len() implies spec_message_entity(#[trigger] d1[i].1) == Some(e) by {
                        if i < d0.len() {
                            assert(d1[i] == d0[i]);
                        } else {
                            assert(d1[i] == newpart[i - d0.len()]);
                            assert(newpart[i - d0.len()].1 == appended[i - d0.len()]);
                        }
                    }
                }
            }
            assert(self.channels().dom() =~= old(self).channels().dom().insert(entity));
            assert forall|k: E| k != entity implies #[trigger] self.accepted(k) == old(self).accepted(k) by {}
            assert forall|k: E| k != entity implies #[trigger] self.delivered(k) == old(self).delivered(k) by {}
        }
    }

    /// Takes the ordered messages, oldest first.
    pub fn receive_messages(&mut self) -> (r: Vec<EntityMessage<E>>)
        requires
            old(self).wf(),
        ensures
            final(self).wf(),
            r@ == old(self).outgoing(),
            final(self).outgoing() == Seq::<EntityMessage<E>>::empty(),
            final(self).channels() == old(self).channels(),
            final(self).spec_host_type() == old(self).spec_host_type(),
            forall|k: E| #[trigger] final(self).accepted(k) == old(self).accepted(k),
            forall|k: E| #[trigger] final(self).delivered(k) == old(self).delivered(k),
    {
        let mut taken: Vec<EntityMessage<E>> = Vec::new();
        std::mem::swap(&mut taken, &mut self.outgoing_events);
        taken
    }

    /// Whether a channel for `entity` is open.
    pub fn host_has_remote_entity(&self, entity: &E) -> (r: bool)
        requires
            self.wf(),
        ensures
            r == self.channels().contains_key(*entity),
    {
        self.entity_channels.contains_key(&entity.key())
    }

    /// Opens a channel for an entity this side already has, spawned, delegated
    /// and with `component_kinds`.
    pub fn track_hosts_redundant_remote_entity(&mut self, entity: &E, component_kinds: &Vec<ComponentKind>)
        requires
            old(self).wf(),
            !old(self).channels().contains_key(*entity),
        ensures
            final(self).wf(),
            final(self).outgoing() == old(self).outgoing(),
            final(self).channels().dom() == old(self).channels().dom().insert(*entity),
            final(self).life_of(*entity) == (SyncLife {
                spawned: true,
                inserted: component_kinds@.to_set(),
                auth: EntityAuthChannelState::Delegated,
            }),
            forall|k: E| k != *entity && #[trigger] old(self).channels().contains_key(k) ==> final(self).channels()[k]
                == old(self).channels()[k],
            forall|k: E| #[trigger] final(self).accepted(k) == old(self).accepted(k),
            forall|k: E| #[trigger] final(self).delivered(k) == old(self).delivered(k),
    {
        let mut channel = EntityChannelReceiver::new_delegated(self.host_type);
        channel.setup_delegated_components(component_kinds);
        let ghost stored0 = self.entity_channels@;
        self.entity_channels.insert(entity.key(), channel);
        proof {
            lemma_keyed_insert::<E, EntityChannelReceiver>(stored0, *entity, channel);
        }
        proof {
            assert(channel.pool() =~= Multiset::<Tagged>::empty()) by {
                broadcast use vstd::multiset::group_multiset_axioms;
            }
            assert(channel.pool().add(spec_strip_tags(self.delivered(*entity)).to_multiset()) =~= spec_strip_tags(
                self.delivered(*entity),
            ).to_multiset());
            assert(Set::<ComponentKind>::empty().union(component_kinds@.to_set()) =~= component_kinds@.to_set());
            assert(spec_log_ok(self.accepted(*entity), self.delivered(*entity), *entity));
            assert forall|e: E| #[trigger] self.channels().contains_key(e) implies spec_channel_ok(
                self.host_type,
                self.channels()[e],
                spec_log_at(self.accepted_log@, e),
                spec_log_at(self.delivered_log@, e),
            ) by {
                if e != *entity {
                    assert(old(self).channels().contains_key(e));
                }
            }
            assert(self.channels().dom() =~= old(self).channels().dom().insert(*entity));
        }
    }

    /// Closes the channel of an entity that has one.
    pub fn untrack_hosts_redundant_remote_entity(&mut self, entity: &E)
        requires
            old(self).wf(),
            old(self).channels().contains_key(*entity),
        ensures
            final(self).wf(),
            final(self).outgoing() == old(self).outgoing(),
            final(self).channels() == old(self).channels().remove(*entity),
            forall|k: E| #[trigger] final(self).accepted(k) == old(self).accepted(k),
            forall|k: E| #[trigger] final(self).delivered(k) == old(self).delivered(k),
    {
        let ghost stored0 = self.entity_channels@;
        self.entity_channels.remove(&entity.key());
        proof {
            lemma_keyed_remove::<E, EntityChannelReceiver>(stored0, *entity);
        }
        proof {
            assert forall|e: E| #[trigger] self.channels().contains_key(e) implies spec_channel_ok(
                self.host_type,
                self.channels()[e],
                spec_log_at(self.accepted_log@, e),
                spec_log_at(self.delivered_log@, e),
            ) by {
                assert(old(self).channels().contains_key(e));
            }
        }
    }
}

/// One step of a channel: what it still holds and what was handed out stay
/// within what was taken in, once one more message is taken in.
proof fn lemma_pool_step(
    p0: Multiset<Tagged>,
    p1: Multiset<Tagged>,
    p2: Multiset<Tagged>,
    d0: Seq<Tagged>,
    t: Seq<Tagged>,
    a0: Multiset<Tagged>,
    x: Tagged,
)
    requires
        p0.add(d0.to_multiset()).subset_of(a0),
        p1.subset_of(p0.insert(x)),
        p2.add(t.to_multiset()) == p1,
    ensures
        p2.add((d0 + t).to_multiset()).subset_of(a0.insert(x)),
        (d0 + t).to_multiset().subset_of(a0.insert(x)),
{
    broadcast use vstd::multiset::group_multiset_axioms;

    vstd::seq_lib::lemma_multiset_commutative(d0, t);
    assert forall|v: Tagged| p2.add((d0 + t).to_multiset()).count(v) <= a0.insert(x).count(v) by {
        assert(p2.add(t.to_multiset()).count(v) == p1.count(v));
        assert(p1.count(v) <= p0.insert(x).count(v));
        assert(p0.add(d0.to_multiset()).count(v) <= a0.count(v));
    }
    assert forall|v: Tagged| (d0 + t).to_multiset().count(v) <= a0.insert(x).count(v) by {
        assert(p2.add(t.to_multiset()).count(v) == p1.count(v));
        assert(p1.count(v) <= p0.insert(x).count(v));
        assert(p0.add(d0.to_multiset()).count(v) <= a0.count(v));
    }
}

/// At-most-once delivery. Every message handed out for an entity was taken
/// in for that entity, and is handed out no more often than it was taken in.
/// Where the caller gave each index at most once for the entity, no index is
/// handed out twice for it.
pub proof fn lemma_engine_delivers_at_most_once<E: EntityKey>(engine: &Engine<E>, entity: E)
    requires
        engine.wf(),
    ensures
        engine.delivered(entity).to_multiset().subset_of(engine.accepted(entity).to_multiset()),
        spec_ids_once(engine.accepted(entity).to_multiset()) ==> engine.delivered(entity).map_values(
            |t: (MessageIndex, EntityMessage<E>)| t.0,
        ).no_duplicates(),
{
    broadcast use vstd::multiset::group_multiset_axioms;
    broadcast use vstd::seq_lib::group_to_multiset_ensures;

    let ds = engine.delivered(entity);
    let acc = engine.accepted(entity);
    assert(spec_log_ok(acc, ds, entity));
    assert(spec_all_for(ds, entity));
    assert(spec_all_for(acc, entity));
    assert(spec_strip_tags(ds).to_multiset().subset_of(spec_strip_tags(acc).to_multiset()));
    assert forall|w: (MessageIndex, EntityMessage<E>)| ds.to_multiset().count(w) <= acc.to_multiset().count(w) by {
        if spec_message_entity(w.1) == Some(entity) {
            lemma_strip_count(ds, entity, w);
            lemma_strip_count(acc, entity, w);
        } else {
            lemma_other_count(ds, entity, w);
        }
    }
    assert(ds.to_multiset().subset_of(acc.to_multiset()));
    if spec_ids_once(acc.to_multiset()) {
        let am = acc.to_multiset();
        assert forall|v: (MessageIndex, EntityMessage<E>)| ds.to_multiset().contains(v) implies ds.to_multiset().count(v) == 1 by {
            assert(ds.to_multiset().count(v) <= am.count(v));
            assert(am.count(v) > 0);
        }
        ds.lemma_multiset_has_no_duplicates_conv();
        let ids = ds.map_values(|t: (MessageIndex, EntityMessage<E>)| t.0);
        assert forall|i: int, j: int| 0 <= i < ids.len() && 0 <= j < ids.len() && i != j implies ids[i] != ids[j] by {
            assert(ds.contains(ds[i]));
            assert(ds.contains(ds[j]));
            assert(ds.to_multiset().count(ds[i]) > 0);
            assert(ds.to_multiset().count(ds[j]) > 0);
            assert(am.count(ds[i]) > 0);
            assert(am.count(ds[j]) > 0);
        }
    }
}

} // verus!
