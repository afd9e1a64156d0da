//! The receiving side's bookkeeping of one entity's publish and delegation
//! messages: they arrive in any order and are handed out, in order, only
//! while the entity exists and only when legal in its current state.
use vstd::prelude::*;
use vstd::multiset::Multiset;

use crate::entity_message::{EntityMessage, EntityMessageType, spec_message_type};
use crate::ordered_ids::{
    OrderedIds, spec_ids_of, spec_items_of, spec_pop_until_excluding, spec_pop_until_including, spec_push_position,
};
use crate::sync::auth_channel::{EntityAuthChannelState, spec_auth_step};
use crate::sync::pool::{Tagged, spec_tag, lemma_tag_push, lemma_suffix_sub, lemma_drop_first_multiset};
use crate::types::MessageIndex;

verus! {

/// Where a run of publish and delegation messages takes the state, or `None`
/// where one of them is not legal there.
pub open spec fn spec_auth_run(start: EntityAuthChannelState, s: Seq<EntityMessage<()>>) -> Option<
    EntityAuthChannelState,
>
    decreases s.len(),
{
    if s.len() == 0 {
        Some(start)
    } else {
        match spec_auth_step(start, spec_message_type(s[0])) {
            Some(next) => spec_auth_run(next, s.drop_first()),
            None => None,
        }
    }
}

/// Two runs one after the other make one.
pub proof fn lemma_auth_run_append(start: EntityAuthChannelState, a: Seq<EntityMessage<()>>, b: Seq<EntityMessage<()>>)
    ensures
        spec_auth_run(start, a + b) == (match spec_auth_run(start, a) {
            Some(mid) => spec_auth_run(mid, b),
            None => None,
        }),
    decreases a.len(),
{
    if a.len() == 0 {
        assert(a + b =~= b);
    } else {
        assert((a + b).drop_first() =~= a.drop_first() + b);
        match spec_auth_step(start, spec_message_type(a[0])) {
            Some(next) => lemma_auth_run_append(next, a.drop_first(), b),
            None => {},
        }
    }
}

/// The message kinds this channel handles.
pub open spec fn spec_auth_kind(t: EntityMessageType) -> bool {
    t == EntityMessageType::PublishEntity || t == EntityMessageType::UnpublishEntity || t == EntityMessageType::EnableDelegationEntity
        || t == EntityMessageType::DisableDelegationEntity || t == EntityMessageType::UpdateAuthority
}

/// How many of the waiting messages `b`, from the front, are each legal in
/// the state the ones before them lead to, starting from `state`. These are
/// the ones handed out.
pub open spec fn spec_auth_ready(state: EntityAuthChannelState, b: Seq<(MessageIndex, EntityMessage<()>)>) -> nat
    decreases b.len(),
{
    if b.len() > 0 && spec_auth_step(state, spec_message_type(b[0].1)) is Some {
        1 + spec_auth_ready(spec_auth_step(state, spec_message_type(b[0].1))->0, b.drop_first())
    } else {
        0
    }
}

/// `post` is `pre` with waiting messages `b`, after the ready ones among them
/// were handed out, oldest first: they leave the queue, follow what was
/// handed out before, and take the state where their run ends.
pub open spec fn spec_auth_processed(
    pre: AuthChannelReceiver,
    b: Seq<(MessageIndex, EntityMessage<()>)>,
    post: AuthChannelReceiver,
) -> bool {
    let k = spec_auth_ready(pre.state(), b) as int;
    &&& post.buffered() == b.subrange(k, b.len() as int)
    &&& post.outgoing() == pre.outgoing() + spec_items_of(b.subrange(0, k))
    &&& post.out_ids() == pre.out_ids() + spec_ids_of(b.subrange(0, k))
    &&& spec_auth_run(pre.state(), spec_items_of(b.subrange(0, k))) == Some(post.state())
    &&& post.drained_state() == pre.drained_state()
}

/// What the entity's bookkeeping holds of its publication: the state, and
/// the messages waiting.
pub type AuthModel = (EntityAuthChannelState, Seq<(MessageIndex, EntityMessage<()>)>);

/// The publication bookkeeping once the ready messages at its front are
/// handed out, and those messages, oldest first.
pub open spec fn spec_auth_model_processed(a: AuthModel) -> (AuthModel, Seq<EntityMessage<()>>) {
    let k = spec_auth_ready(a.0, a.1) as int;
    let items = spec_items_of(a.1.subrange(0, k));
    ((spec_auth_run(a.0, items)->0, a.1.subrange(k, a.1.len() as int)), items)
}

/// A channel holding nothing holds no message.
proof fn lemma_empty_auth_pool(c: AuthChannelReceiver)
    requires
        c.buffered_messages@ == Seq::<(MessageIndex, EntityMessage<()>)>::empty(),
        c.outgoing_messages@ == Seq::<EntityMessage<()>>::empty(),
        c.out_ids@ == Seq::<MessageIndex>::empty(),
    ensures
        c.pool() == Multiset::<Tagged>::empty(),
{
    broadcast use {vstd::multiset::group_multiset_axioms, vstd::seq_lib::group_to_multiset_ensures};

    assert(spec_tag(c.out_ids@, c.outgoing_messages@) =~= Seq::<Tagged>::empty());
    assert(c.pool() =~= Multiset::<Tagged>::empty());
}

/// Reorders the publish and delegation messages of one entity.
pub struct AuthChannelReceiver {
    state: EntityAuthChannelState,
    buffered_messages: OrderedIds<EntityMessage<()>>,
    outgoing_messages: Vec<EntityMessage<()>>,
    drained_state: Ghost<EntityAuthChannelState>,
    out_ids: Ghost<Seq<MessageIndex>>,
}

impl AuthChannelReceiver {
    pub closed spec fn state(&self) -> EntityAuthChannelState {
        self.state
    }

    pub closed spec fn drained_state(&self) -> EntityAuthChannelState {
        self.drained_state@
    }

    pub closed spec fn outgoing(&self) -> Seq<EntityMessage<()>> {
        self.outgoing_messages@
    }

    pub closed spec fn buffered(&self) -> Seq<(MessageIndex, EntityMessage<()>)> {
        self.buffered_messages@
    }

    /// The indices the messages handed out and not yet drained arrived under.
    pub closed spec fn out_ids(&self) -> Seq<MessageIndex> {
        self.out_ids@
    }

    /// Every message taken in and not yet drained or dropped, with its index.
    pub closed spec fn pool(&self) -> Multiset<Tagged> {
        self.buffered_messages@.to_multiset().add(spec_tag(self.out_ids@, self.outgoing_messages@).to_multiset())
    }

    /// What was handed out since the last drain is a legal run from the
    /// state of the last drain to the current one, each with its index.
    pub closed spec fn wf(&self) -> bool {
        &&& spec_auth_run(self.drained_state@, self.outgoing_messages@) == Some(self.state)
        &&& self.out_ids@.len() == self.outgoing_messages@.len()
    }

    pub fn new() -> (r: AuthChannelReceiver)
        ensures
            r.wf(),
            r.state() == EntityAuthChannelState::Unpublished,
            r.drained_state() == EntityAuthChannelState::Unpublished,
            r.outgoing() == Seq::<EntityMessage<()>>::empty(),
            r.buffered() == Seq::<(MessageIndex, EntityMessage<()>)>::empty(),
            r.pool() == Multiset::<Tagged>::empty(),
    {
        let r = AuthChannelReceiver {
            state: EntityAuthChannelState::Unpublished,
            buffered_messages: OrderedIds::new(),
            outgoing_messages: Vec::new(),
            drained_state: Ghost(EntityAuthChannelState::Unpublished),
            out_ids: Ghost(Seq::empty()),
        };
        proof {
            lemma_empty_auth_pool(r);
        }
        r
    }

    /// Sets the state a freshly spawned entity starts in; nothing may be
    /// waiting to be drained.
    pub fn set_state(&mut self, state: EntityAuthChannelState)
        requires
            old(self).wf(),
            old(self).outgoing() == Seq::<EntityMessage<()>>::empty(),
        ensures
            final(self).wf(),
            final(self).state() == state,
            final(self).drained_state() == state,
            final(self).outgoing() == Seq::<EntityMessage<()>>::empty(),
            final(self).buffered() == old(self).buffered(),
            final(self).pool() == old(self).pool(),
    {
        self.state = state;
        proof {
            self.drained_state = Ghost(state);
        }
    }

    /// Marks the entity published, as a spawned entity of a server is.
    pub fn set_published(&mut self)
        requires
            old(self).wf(),
            old(self).outgoing() == Seq::<EntityMessage<()>>::empty(),
        ensures
            final(self).wf(),
            final(self).state() == EntityAuthChannelState::Published,
            final(self).drained_state() == EntityAuthChannelState::Published,
            final(self).outgoing() == Seq::<EntityMessage<()>>::empty(),
            final(self).buffered() == old(self).buffered(),
            final(self).pool() == old(self).pool(),
    {
        self.set_state(EntityAuthChannelState::Published);
    }

    /// Marks the entity unpublished, as a spawned entity of a client is.
    pub fn set_unpublished(&mut self)
        requires
            old(self).wf(),
            old(self).outgoing() == Seq::<EntityMessage<()>>::empty(),
        ensures
            final(self).wf(),
            final(self).state() == EntityAuthChannelState::Unpublished,
            final(self).drained_state() == EntityAuthChannelState::Unpublished,
            final(self).outgoing() == Seq::<EntityMessage<()>>::empty(),
            final(self).buffered() == old(self).buffered(),
            final(self).pool() == old(self).pool(),
    {
        self.set_state(EntityAuthChannelState::Unpublished);
    }

    /// Forgets everything, as when the entity despawns, so that a later spawn
    /// starts clean.
    pub fn reset(&mut self)
        ensures
            final(self).wf(),
            final(self).state() == EntityAuthChannelState::Unpublished,
            final(self).drained_state() == EntityAuthChannelState::Unpublished,
            final(self).outgoing() == Seq::<EntityMessage<()>>::empty(),
            final(self).buffered() == Seq::<(MessageIndex, EntityMessage<()>)>::empty(),
            final(self).pool() == Multiset::<Tagged>::empty(),
    {
        self.state = EntityAuthChannelState::Unpublished;
        self.buffered_messages.clear();
        self.outgoing_messages.clear();
        proof {
            self.drained_state = Ghost(EntityAuthChannelState::Unpublished);
            self.out_ids = Ghost(Seq::empty());
            lemma_empty_auth_pool(*self);
        }
    }

    /// While the entity is spawned, hands out the waiting messages from the
    /// front while each is legal in the current state.
    pub fn process_messages(&mut self, spawned: bool)
        requires
            old(self).wf(),
        ensures
            final(self).wf(),
            final(self).drained_state() == old(self).drained_state(),
            old(self).outgoing().is_prefix_of(final(self).outgoing()),
            !spawned ==> *final(self) == *old(self),
            spawned ==> spec_auth_processed(*old(self), old(self).buffered(), *final(self)),
            final(self).pool() == old(self).pool(),
    {
        if !spawned {
            return;
        }
        let ghost b0 = self.buffered_messages@;
        let ghost mut j: int = 0;
        proof {
            assert(b0.subrange(0, 0) =~= Seq::<(MessageIndex, EntityMessage<()>)>::empty());
            assert(b0.subrange(0, b0.len() as int) =~= b0);
            assert(old(self).outgoing_messages@ + spec_items_of(b0.subrange(0, 0)) =~= old(self).outgoing_messages@);
            assert(old(self).out_ids@ + spec_ids_of(b0.subrange(0, 0)) =~= old(self).out_ids@);
            assert(spec_items_of(b0.subrange(0, 0)) =~= Seq::<EntityMessage<()>>::empty());
        }
        loop
            invariant
                self.wf(),
                self.drained_state@ == old(self).drained_state@,
                old(self).outgoing_messages@.is_prefix_of(self.outgoing_messages@),
                self.pool() == old(self).pool(),
                b0 == old(self).buffered_messages@,
                0 <= j <= b0.len(),
                self.buffered_messages@ == b0.subrange(j, b0.len() as int),
                self.outgoing_messages@ == old(self).outgoing_messages@ + spec_items_of(b0.subrange(0, j)),
                self.out_ids@ == old(self).out_ids@ + spec_ids_of(b0.subrange(0, j)),
                spec_auth_run(old(self).state, spec_items_of(b0.subrange(0, j))) == Some(self.state),
                spec_auth_ready(old(self).state, b0) == j + spec_auth_ready(self.state, self.buffered_messages@),
            ensures
                self.wf(),
                self.drained_state@ == old(self).drained_state@,
                old(self).outgoing_messages@.is_prefix_of(self.outgoing_messages@),
                self.pool() == old(self).pool(),
                0 <= j <= b0.len(),
                self.buffered_messages@ == b0.subrange(j, b0.len() as int),
                self.outgoing_messages@ == old(self).outgoing_messages@ + spec_items_of(b0.subrange(0, j)),
                self.out_ids@ == old(self).out_ids@ + spec_ids_of(b0.subrange(0, j)),
                spec_auth_run(old(self).state, spec_items_of(b0.subrange(0, j))) == Some(self.state),
                spec_auth_ready(old(self).state, b0) == j,
            decreases self.buffered_messages@.len(),
        {
            let msg = match self.buffered_messages.peek_front() {
                Some(front) => front.1,
                None => {
                    break;
                },
            };
            let next = match msg.get_type() {
                EntityMessageType::PublishEntity => if self.state == EntityAuthChannelState::Unpublished {
                    Some(EntityAuthChannelState::Published)
                } else {
                    None
                },
                EntityMessageType::UnpublishEntity => if self.state == EntityAuthChannelState::Published {
                    Some(EntityAuthChannelState::Unpublished)
                } else {
                    None
                },
                EntityMessageType::EnableDelegationEntity => if self.state == EntityAuthChannelState::Published {
                    Some(EntityAuthChannelState::Delegated)
                } else {
                    None
                },
                EntityMessageType::DisableDelegationEntity => if self.state == EntityAuthChannelState::Delegated {
                    Some(EntityAuthChannelState::Published)
                } else {
                    None
                },
                EntityMessageType::UpdateAuthority => if self.state == EntityAuthChannelState::Delegated {
                    Some(EntityAuthChannelState::Delegated)
                } else {
                    None
                },
                _ => None,
            };
            let next_state = match next {
                Some(s) => s,
                None => {
                    break;
                },
            };
            let ghost before = self.outgoing_messages@;
            let ghost old_state = self.state;
            let ghost pre = *self;
            self.state = next_state;
            self.outgoing_messages.push(msg);
            let popped = self.buffered_messages.pop_front();
            proof {
                let sub = b0.subrange(j, b0.len() as int);
                assert(sub[0] == b0[j]);
                assert(sub.drop_first() =~= b0.subrange(j + 1, b0.len() as int));
                assert(b0.subrange(0, j + 1) =~= b0.subrange(0, j).push(b0[j]));
                let m0 = spec_items_of(b0.subrange(0, j));
                assert(spec_items_of(b0.subrange(0, j + 1)) =~= m0.push(msg));
                assert(spec_ids_of(b0.subrange(0, j + 1)) =~= spec_ids_of(b0.subrange(0, j)).push(b0[j].0));
                assert(self.outgoing_messages@ =~= old(self).outgoing_messages@ + m0.push(msg));
                assert(self.out_ids@.push(b0[j].0) =~= old(self).out_ids@ + spec_ids_of(b0.subrange(0, j + 1)));
                lemma_auth_run_append(old(self).state, m0, seq![msg]);
                assert(m0 + seq![msg] =~= m0.push(msg));
                reveal_with_fuel(spec_auth_run, 2);
                assert(seq![msg].drop_first() =~= Seq::<EntityMessage<()>>::empty());
                j = j + 1;
                broadcast use vstd::multiset::group_multiset_axioms;
                let id = pre.buffered_messages@[0].0;
                let x = (id, msg);
                assert(pre.buffered_messages@[0] == x);
                self.out_ids = Ghost(self.out_ids@.push(id));
                lemma_drop_first_multiset(pre.buffered_messages@);
                lemma_tag_push(pre.out_ids@, before, id, msg);
                let tp = spec_tag(pre.out_ids@, before);
                vstd::seq_lib::to_multiset_build(tp, x);
                let bm = self.buffered_messages@.to_multiset();
                let tm = tp.to_multiset();
                assert(self.pool() == bm.add(tm.insert(x)));
                assert(pre.pool() == bm.insert(x).add(tm));
                assert(bm.add(tm.insert(x)) =~= bm.insert(x).add(tm));
                let t = self.outgoing_messages@;
                lemma_auth_run_append(self.drained_state@, before, seq![msg]);
                assert(before + seq![msg] =~= t);
                reveal_with_fuel(spec_auth_run, 2);
                assert(seq![msg].drop_first() =~= Seq::<EntityMessage<()>>::empty());
                assert(spec_auth_step(old_state, spec_message_type(msg)) == Some(next_state));
                assert(old(self).outgoing_messages@.is_prefix_of(t)) by {
                    assert(forall|j: int| 0 <= j < before.len() ==> t[j] == before[j]);
                }
            }
        }
    }

    /// Takes in a publish or delegation message and, while the entity is
    /// spawned, hands out what became legal.
    pub fn accept_message(&mut self, spawned: bool, id: MessageIndex, msg: EntityMessage<()>)
        requires
            old(self).wf(),
            spec_auth_kind(spec_message_type(msg)),
        ensures
            final(self).wf(),
            final(self).drained_state() == old(self).drained_state(),
            old(self).outgoing().is_prefix_of(final(self).outgoing()),
            !spawned ==> final(self).state() == old(self).state() && final(self).outgoing() == old(self).outgoing(),
            !spawned ==> final(self).out_ids() == old(self).out_ids() && final(self).buffered() == old(self).buffered().insert(
                spec_push_position(old(self).buffered(), id, old(self).buffered().len() as int),
                (id, msg),
            ),
            spawned ==> spec_auth_processed(
                *old(self),
                old(self).buffered().insert(
                    spec_push_position(old(self).buffered(), id, old(self).buffered().len() as int),
                    (id, msg),
                ),
                *final(self),
            ),
            final(self).pool() == old(self).pool().insert((id, msg)),
    {
        let ghost pre = *self;
        self.buffered_messages.push_back(id, msg);
        proof {
            broadcast use vstd::multiset::group_multiset_axioms;
            let b0 = pre.buffered_messages@;
            let p = crate::ordered_ids::spec_push_position(b0, id, b0.len() as int);
            crate::ordered_ids::lemma_push_position(b0, id, b0.len() as int);
            vstd::seq_lib::to_multiset_insert(b0, p, (id, msg));
            let tm = spec_tag(pre.out_ids@, pre.outgoing_messages@).to_multiset();
            assert(b0.to_multiset().insert((id, msg)).add(tm) =~= b0.to_multiset().add(tm).insert((id, msg)));
        }
        self.process_messages(spawned);
    }

    /// Drops the waiting messages at the front that are no newer than `id`.
    pub fn buffer_pop_front_until_and_including(&mut self, id: MessageIndex)
        requires
            old(self).wf(),
        ensures
            final(self).wf(),
            final(self).state() == old(self).state(),
            final(self).drained_state() == old(self).drained_state(),
            final(self).outgoing() == old(self).outgoing(),
            final(self).buffered() == spec_pop_until_including(old(self).buffered(), id),
            final(self).pool().subset_of(old(self).pool()),
    {
        let ghost pre = *self;
        self.buffered_messages.pop_front_until_and_including(id);
        proof {
            broadcast use vstd::multiset::group_multiset_axioms;
            let b0 = pre.buffered_messages@;
            crate::ordered_ids::lemma_upto_prefix_bound(b0, id);
            lemma_suffix_sub(b0, crate::ordered_ids::spec_upto_prefix(b0, id) as int);
        }
    }

    /// Drops the waiting messages at the front that are older than `id`.
    pub fn buffer_pop_front_until_and_excluding(&mut self, id: MessageIndex)
        requires
            old(self).wf(),
        ensures
            final(self).wf(),
            final(self).state() == old(self).state(),
            final(self).drained_state() == old(self).drained_state(),
            final(self).outgoing() == old(self).outgoing(),
            final(self).out_ids() == old(self).out_ids(),
            final(self).buffered() == spec_pop_until_excluding(old(self).buffered(), id),
            final(self).pool().subset_of(old(self).pool()),
    {
        let ghost pre = *self;
        self.buffered_messages.pop_front_until_and_excluding(id);
        proof {
            broadcast use vstd::multiset::group_multiset_axioms;
            let b0 = pre.buffered_messages@;
            let j = choose|j: int| 0 <= j <= b0.len() && self.buffered_messages@ == b0.subrange(j, b0.len() as int);
            lemma_suffix_sub(b0, j);
        }
    }

    /// Moves what was handed out, oldest first, to the end of `outgoing_messages`.
    pub fn drain_messages_into(&mut self, outgoing_messages: &mut Vec<EntityMessage<()>>)
        requires
            old(self).wf(),
        ensures
            final(self).wf(),
            final(outgoing_messages)@ == old(outgoing_messages)@ + old(self).outgoing(),
            final(self).outgoing() == Seq::<EntityMessage<()>>::empty(),
            final(self).state() == old(self).state(),
            final(self).drained_state() == old(self).state(),
            final(self).buffered() == old(self).buffered(),
            spec_auth_run(old(self).drained_state(), old(self).outgoing()) == Some(old(self).state()),
            final(self).out_ids() == Seq::<MessageIndex>::empty(),
            old(self).out_ids().len() == old(self).outgoing().len(),
            final(self).pool().add(spec_tag(old(self).out_ids(), old(self).outgoing()).to_multiset()) == old(self).pool(),
    {
        let ghost pre = *self;
        outgoing_messages.append(&mut self.outgoing_messages);
        proof {
            broadcast use vstd::multiset::group_multiset_axioms;
            self.drained_state = Ghost(self.state);
            self.out_ids = Ghost(Seq::empty());
            assert(spec_tag(self.out_ids@, self.outgoing_messages@) =~= Seq::<Tagged>::empty());
            assert(Seq::<Tagged>::empty().to_multiset() =~= Multiset::<Tagged>::empty()) by {
                broadcast use vstd::seq_lib::group_to_multiset_ensures;
            }
            assert(self.pool() =~= self.buffered_messages@.to_multiset());
        }
    }
}

} // verus!
