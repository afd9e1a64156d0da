//! The receiving side's bookkeeping of one entity: spawns, despawns,
//! component and publish/delegation messages arrive in any order and are
//! handed out in an order that is legal for the entity at every step. No
//! component or publish/delegation message overtakes the spawn that makes
//! it legal.
use vstd::prelude::*;
use vstd::multiset::Multiset;

use crate::entity_message::{EntityMessage, EntityMessageType, spec_message_retarget, spec_message_type};
use crate::ordered_ids::{OrderedIds, spec_pop_until_excluding, spec_pop_until_including, spec_push_position};
use crate::sync::auth_channel::{EntityAuthChannelState, spec_auth_step};
use crate::sync::auth_channel_receiver::{AuthChannelReceiver, AuthModel, spec_auth_kind, spec_auth_model_processed, spec_auth_run};
use crate::sync::component_channel::{
    CompModel, ComponentChannel, lemma_comp_model_accept, lemma_comp_model_process, spec_comp_model, spec_comp_model_accepted, spec_comp_model_processed, spec_comp_msg,
    spec_component_messages, spec_toggle_run,
};
use crate::sync::pool::{Tagged, spec_tag, lemma_tag_push, lemma_tag_append, lemma_suffix_sub, lemma_drop_first_multiset};
use crate::types::{ComponentKind, HostType, MessageIndex};
use crate::wrapping_number::{sequence_less_than, spec_sequence_greater_than};

verus! {

/// Whether the entity exists on the receiving side.
#[derive(Debug, Clone, Copy, PartialEq, Eq, Structural)]
pub enum EntityChannelState {
    Despawned,
    Spawned,
}

/// What the messages handed out so far say of one entity.
pub struct SyncLife {
    pub spawned: bool,
    pub inserted: Set<ComponentKind>,
    pub auth: EntityAuthChannelState,
}

/// The publish state a spawned entity starts in on this side: a client sees
/// the server's entities published, a server sees a client's unpublished.
pub open spec fn spec_spawn_auth(host_type: HostType) -> EntityAuthChannelState {
    match host_type {
        HostType::Client => EntityAuthChannelState::Published,
        HostType::Server => EntityAuthChannelState::Unpublished,
    }
}

/// The state after one message, or `None` where it is not legal there:
/// spawn when absent, despawn when present (which forgets components and
/// publication), components and publication steps only while present.
pub open spec fn spec_sync_step<E: Copy + Eq>(host_type: HostType, l: SyncLife, m: EntityMessage<E>) -> Option<SyncLife> {
    match m {
        EntityMessage::Spawn(_) => if !l.spawned {
            Some(SyncLife { spawned: true, inserted: l.inserted, auth: spec_spawn_auth(host_type) })
        } else {
            None
        },
        EntityMessage::Despawn(_) => if l.spawned {
            Some(SyncLife { spawned: false, inserted: Set::empty(), auth: EntityAuthChannelState::Unpublished })
        } else {
            None
        },
        EntityMessage::InsertComponent(_, k) => if l.spawned && !l.inserted.contains(k) {
            Some(SyncLife { spawned: true, inserted: l.inserted.insert(k), auth: l.auth })
        } else {
            None
        },
        EntityMessage::RemoveComponent(_, k) => if l.spawned && l.inserted.contains(k) {
            Some(SyncLife { spawned: true, inserted: l.inserted.remove(k), auth: l.auth })
        } else {
            None
        },
        _ => if l.spawned && spec_auth_step(l.auth, spec_message_type(m)) is Some {
            Some(SyncLife { spawned: true, inserted: l.inserted, auth: spec_auth_step(l.auth, spec_message_type(m))->0 })
        } else {
            None
        },
    }
}

/// The state after a sequence of messages, each legal where applied.
pub open spec fn spec_sync_replay<E: Copy + Eq>(host_type: HostType, l: SyncLife, s: Seq<EntityMessage<E>>) -> Option<SyncLife>
    decreases s.len(),
{
    if s.len() == 0 {
        Some(l)
    } else {
        match spec_sync_step(host_type, l, s[0]) {
            Some(next) => spec_sync_replay(host_type, next, s.drop_first()),
            None => None,
        }
    }
}

/// Replaying two sequences one after the other is replaying their concatenation.
pub proof fn lemma_sync_replay_append<E: Copy + Eq>(host_type: HostType, l: SyncLife, a: Seq<EntityMessage<E>>, b: Seq<EntityMessage<E>>)
    ensures
        spec_sync_replay(host_type, l, a + b) == (match spec_sync_replay(host_type, l, a) {
            Some(mid) => spec_sync_replay(host_type, mid, b),
            None => None,
        }),
    decreases a.len(),
{
    if a.len() == 0 {
        assert(a + b =~= b);
    } else {
        assert((a + b).drop_first() =~= a.drop_first() + b);
        match spec_sync_step(host_type, l, a[0]) {
            Some(next) => lemma_sync_replay_append(host_type, next, a.drop_first(), b),
            None => {},
        }
    }
}

/// One legal message replays to the state it steps to.
pub proof fn lemma_sync_replay_single<E: Copy + Eq>(host_type: HostType, l: SyncLife, m: EntityMessage<E>)
    ensures
        spec_sync_replay(host_type, l, seq![m]) == spec_sync_step(host_type, l, m),
{
    reveal_with_fuel(spec_sync_replay, 2);
    assert(seq![m].drop_first() =~= Seq::<EntityMessage<E>>::empty());
}

/// Addressing the messages to an entity does not change what they do.
pub proof fn lemma_sync_replay_retarget<E: Copy + Eq>(host_type: HostType, l: SyncLife, s: Seq<EntityMessage<()>>, entity: E)
    ensures
        spec_sync_replay(host_type, l, s.map_values(|m: EntityMessage<()>| spec_message_retarget(m, entity)))
            == spec_sync_replay(host_type, l, s),
    decreases s.len(),
{
    let t = s.map_values(|m: EntityMessage<()>| spec_message_retarget(m, entity));
    if s.len() > 0 {
        assert(t.drop_first() =~= s.drop_first().map_values(|m: EntityMessage<()>| spec_message_retarget(m, entity)));
        assert(spec_sync_step(host_type, l, t[0]) == spec_sync_step(host_type, l, s[0]));
        match spec_sync_step(host_type, l, s[0]) {
            Some(next) => lemma_sync_replay_retarget(host_type, next, s.drop_first(), entity),
            None => {},
        }
    }
}

/// A legal run of one component's inserts and removes, on a spawned entity
/// whose view of that component matches where the run starts, replays to the
/// same entity with the component where the run ends.
pub proof fn lemma_component_run_replays(
    host_type: HostType,
    l: SyncLife,
    k: ComponentKind,
    start: bool,
    s: Seq<EntityMessageType>,
)
    requires
        l.spawned,
        l.inserted.contains(k) == start,
        spec_toggle_run(start, s) is Some,
    ensures
        spec_sync_replay(host_type, l, spec_component_messages(s, k)) == Some(
            SyncLife {
                spawned: true,
                inserted: if spec_toggle_run(start, s)->0 {
                    l.inserted.insert(k)
                } else {
                    l.inserted.remove(k)
                },
                auth: l.auth,
            },
        ),
    decreases s.len(),
{
    let msgs = spec_component_messages(s, k);
    if s.len() == 0 {
        if start {
            assert(l.inserted.insert(k) =~= l.inserted);
        } else {
            assert(l.inserted.remove(k) =~= l.inserted);
        }
        assert(l == SyncLife { spawned: true, inserted: l.inserted, auth: l.auth });
    } else {
        let next_start = s[0] == EntityMessageType::InsertComponent;
        let next = SyncLife {
            spawned: true,
            inserted: if next_start {
                l.inserted.insert(k)
            } else {
                l.inserted.remove(k)
            },
            auth: l.auth,
        };
        assert(msgs.drop_first() =~= spec_component_messages(s.drop_first(), k));
        assert(spec_sync_step(host_type, l, msgs[0]) == Some(next));
        lemma_component_run_replays(host_type, next, k, next_start, s.drop_first());
        if spec_toggle_run(start, s)->0 {
            assert(next.inserted.insert(k) =~= l.inserted.insert(k));
        } else {
            assert(next.inserted.remove(k) =~= l.inserted.remove(k));
        }
    }
}

/// A legal run of publish and delegation messages, on a spawned entity in
/// the state where the run starts, replays to the same entity in the state
/// where the run ends.
pub proof fn lemma_auth_run_replays(host_type: HostType, l: SyncLife, s: Seq<EntityMessage<()>>)
    requires
        l.spawned,
        spec_auth_run(l.auth, s) is Some,
    ensures
        spec_sync_replay(host_type, l, s) == Some(
            SyncLife { spawned: true, inserted: l.inserted, auth: spec_auth_run(l.auth, s)->0 },
        ),
    decreases s.len(),
{
    if s.len() > 0 {
        let t = spec_message_type(s[0]);
        let next = SyncLife { spawned: true, inserted: l.inserted, auth: spec_auth_step(l.auth, t)->0 };
        assert(spec_sync_step(host_type, l, s[0]) == Some(next)) by {
            assert(!(s[0] is Spawn) && !(s[0] is Despawn) && !(s[0] is InsertComponent) && !(s[0] is RemoveComponent));
        }
        lemma_auth_run_replays(host_type, next, s.drop_first());
    }
}

/// The components present, as of each component's last drain.
pub open spec fn spec_drained_set(s: Seq<(ComponentKind, ComponentChannel)>) -> Set<ComponentKind> {
    Set::new(|k: ComponentKind| exists|i: int| 0 <= i < s.len() && s[i].0 == k && #[trigger] s[i].1.drained_inserted())
}

/// No component is listed twice.
pub open spec fn spec_unique_kinds(s: Seq<(ComponentKind, ComponentChannel)>) -> bool {
    forall|i: int, j: int| 0 <= i < s.len() && 0 <= j < s.len() && i != j ==> #[trigger] s[i].0 != #[trigger] s[j].0
}

/// Replacing one component's bookkeeping changes the drained set by that component alone.
pub proof fn lemma_drained_set_update(s: Seq<(ComponentKind, ComponentChannel)>, i: int, x: (ComponentKind, ComponentChannel))
    requires
        0 <= i < s.len(),
        spec_unique_kinds(s),
        x.0 == s[i].0,
    ensures
        spec_unique_kinds(s.update(i, x)),
        spec_drained_set(s.update(i, x)) == (if x.1.drained_inserted() {
            spec_drained_set(s).insert(x.0)
        } else {
            spec_drained_set(s).remove(x.0)
        }),
        spec_drained_set(s).contains(s[i].0) == s[i].1.drained_inserted(),
{
    let t = s.update(i, x);
    let a = spec_drained_set(t);
    let b = if x.1.drained_inserted() {
        spec_drained_set(s).insert(x.0)
    } else {
        spec_drained_set(s).remove(x.0)
    };
    assert forall|k: ComponentKind| a.contains(k) <==> b.contains(k) by {
        if k == x.0 {
            if x.1.drained_inserted() {
                assert(t[i].1.drained_inserted());
            } else if a.contains(k) {
                let j = choose|j: int| 0 <= j < t.len() && t[j].0 == k && #[trigger] t[j].1.drained_inserted();
                assert(j != i);
                assert(s[j].0 == s[i].0);
            }
        } else {
            if a.contains(k) {
                let j = choose|j: int| 0 <= j < t.len() && t[j].0 == k && #[trigger] t[j].1.drained_inserted();
                assert(s[j] == t[j]);
            }
            if spec_drained_set(s).contains(k) {
                let j = choose|j: int| 0 <= j < s.len() && s[j].0 == k && #[trigger] s[j].1.drained_inserted();
                assert(s[j] == t[j]);
            }
        }
    }
    assert(a =~= b);
    if spec_drained_set(s).contains(s[i].0) {
        let j = choose|j: int| 0 <= j < s.len() && s[j].0 == s[i].0 && #[trigger] s[j].1.drained_inserted();
        assert(j == i);
    }
    if s[i].1.drained_inserted() {
        assert(spec_drained_set(s).contains(s[i].0));
    }
}

/// A component not listed is not in the drained set, and adding it fresh
/// keeps the set and the uniqueness of kinds.
pub proof fn lemma_drained_set_push(s: Seq<(ComponentKind, ComponentChannel)>, x: (ComponentKind, ComponentChannel))
    requires
        spec_unique_kinds(s),
        forall|i: int| 0 <= i < s.len() ==> #[trigger] s[i].0 != x.0,
        !x.1.drained_inserted(),
    ensures
        spec_unique_kinds(s.push(x)),
        spec_drained_set(s.push(x)) == spec_drained_set(s),
        !spec_drained_set(s).contains(x.0),
{
    let t = s.push(x);
    assert forall|k: ComponentKind| spec_drained_set(t).contains(k) <==> spec_drained_set(s).contains(k) by {
        if spec_drained_set(t).contains(k) {
            let j = choose|j: int| 0 <= j < t.len() && t[j].0 == k && #[trigger] t[j].1.drained_inserted();
            assert(j < s.len());
            assert(s[j] == t[j]);
        }
        if spec_drained_set(s).contains(k) {
            let j = choose|j: int| 0 <= j < s.len() && s[j].0 == k && #[trigger] s[j].1.drained_inserted();
            assert(s[j] == t[j]);
        }
    }
    assert(spec_drained_set(t) =~= spec_drained_set(s));
    if spec_drained_set(s).contains(x.0) {
        let j = choose|j: int| 0 <= j < s.len() && s[j].0 == x.0 && #[trigger] s[j].1.drained_inserted();
    }
}

/// What the component channels of `s` hold, each as messages about its kind.
pub open spec fn spec_components_pool(s: Seq<(ComponentKind, ComponentChannel)>) -> Multiset<Tagged>
    decreases s.len(),
{
    if s.len() == 0 {
        Multiset::empty()
    } else {
        spec_components_pool(s.drop_last()).add(s.last().1.pool(s.last().0))
    }
}

/// Appending a channel adds what it holds.
pub proof fn lemma_components_pool_push(s: Seq<(ComponentKind, ComponentChannel)>, x: (ComponentKind, ComponentChannel))
    ensures
        spec_components_pool(s.push(x)) == spec_components_pool(s).add(x.1.pool(x.0)),
{
    assert(s.push(x).drop_last() =~= s);
}

/// Replacing one channel replaces what it holds.
pub proof fn lemma_components_pool_update(
    s: Seq<(ComponentKind, ComponentChannel)>,
    i: int,
    x: (ComponentKind, ComponentChannel),
)
    requires
        0 <= i < s.len(),
    ensures
        spec_components_pool(s.update(i, x)).add(s[i].1.pool(s[i].0)) == spec_components_pool(s).add(x.1.pool(x.0)),
    decreases s.len(),
{
    broadcast use vstd::multiset::group_multiset_axioms;

    let t = s.update(i, x);
    if i == s.len() - 1 {
        assert(t.drop_last() =~= s.drop_last());
        assert(spec_components_pool(t).add(s[i].1.pool(s[i].0)) =~= spec_components_pool(s).add(x.1.pool(x.0)));
    } else {
        lemma_components_pool_update(s.drop_last(), i, x);
        assert(t.drop_last() =~= s.drop_last().update(i, x));
        assert(t.last() == s.last());
        assert(s.drop_last()[i] == s[i]);
        let l = s.last().1.pool(s.last().0);
        let pd = spec_components_pool(s.drop_last());
        let ptd = spec_components_pool(t.drop_last());
        assert(spec_components_pool(t) == ptd.add(l));
        assert(spec_components_pool(s) == pd.add(l));
        assert(ptd.add(s[i].1.pool(s[i].0)) == pd.add(x.1.pool(x.0)));
        assert(ptd.add(l).add(s[i].1.pool(s[i].0)) =~= ptd.add(s[i].1.pool(s[i].0)).add(l));
        assert(pd.add(x.1.pool(x.0)).add(l) =~= pd.add(l).add(x.1.pool(x.0)));
    }
}

/// A despawn that empties every buffer and channel and hands out the
/// message at the front keeps no more than was held.
proof fn lemma_despawn_pool(pre: EntityChannelReceiver, post: EntityChannelReceiver, id: MessageIndex, msg: EntityMessage<()>)
    requires
        pre.wf(),
        pre.buffered_messages@.len() > 0,
        pre.buffered_messages@[0] == (id, msg),
        post.buffered_messages@ == Seq::<(MessageIndex, EntityMessage<()>)>::empty(),
        post.component_channels@ == Seq::<(ComponentKind, ComponentChannel)>::empty(),
        post.auth_channel.pool() == Multiset::<Tagged>::empty(),
        post.outgoing_messages@ == pre.outgoing_messages@.push(msg),
        post.out_ids@ == pre.out_ids@.push(id),
    ensures
        post.pool().subset_of(pre.pool()),
{
    broadcast use {vstd::multiset::group_multiset_axioms, vstd::seq_lib::group_to_multiset_ensures};

    let x = (id, msg);
    let b0 = pre.buffered_messages@;
    lemma_drop_first_multiset(b0);
    lemma_tag_push(pre.out_ids@, pre.outgoing_messages@, id, msg);
    let tp = spec_tag(pre.out_ids@, pre.outgoing_messages@);
    vstd::seq_lib::to_multiset_build(tp, x);
    assert(spec_components_pool(post.component_channels@) == Multiset::<Tagged>::empty());
    assert(post.buffered_messages@.to_multiset() =~= Multiset::<Tagged>::empty());
    assert(post.pool() =~= tp.to_multiset().insert(x));
}

/// A message taken from the front of the buffer into one component channel,
/// which then hands out a run that follows the earlier messages, keeps no
/// more than was held.
proof fn lemma_component_move_pool(
    pre: EntityChannelReceiver,
    post: EntityChannelReceiver,
    before: Seq<(ComponentKind, ComponentChannel)>,
    ci: int,
    ch: (ComponentKind, ComponentChannel),
    x: Tagged,
    pool_mid: Multiset<Tagged>,
    ids0: Seq<MessageIndex>,
    out0: Seq<EntityMessage<()>>,
    run_ids: Seq<MessageIndex>,
    run: Seq<EntityMessage<()>>,
)
    requires
        pre.buffered_messages@.len() > 0,
        pre.buffered_messages@[0] == x,
        post.buffered_messages@ == pre.buffered_messages@.drop_first(),
        spec_components_pool(before) == spec_components_pool(pre.component_channels@),
        0 <= ci < before.len(),
        post.component_channels@ == before.update(ci, ch),
        ch.0 == before[ci].0,
        pool_mid.subset_of(before[ci].1.pool(before[ci].0).insert(x)),
        ch.1.pool(ch.0).add(spec_tag(run_ids, run).to_multiset()) == pool_mid,
        post.auth_channel == pre.auth_channel,
        ids0 == pre.out_ids@,
        out0 == pre.outgoing_messages@,
        ids0.len() == out0.len(),
        run_ids.len() == run.len(),
        post.out_ids@ == ids0 + run_ids,
        post.outgoing_messages@ == out0 + run,
    ensures
        post.pool().subset_of(pre.pool()),
{
    broadcast use vstd::multiset::group_multiset_axioms;

    lemma_drop_first_multiset(pre.buffered_messages@);
    lemma_components_pool_update(before, ci, ch);
    lemma_tag_append(ids0, out0, run_ids, run);
    vstd::seq_lib::lemma_multiset_commutative(spec_tag(ids0, out0), spec_tag(run_ids, run));
    let bm = post.buffered_messages@.to_multiset();
    let c_new = spec_components_pool(post.component_channels@);
    let c_old = spec_components_pool(before);
    let p_old = before[ci].1.pool(before[ci].0);
    let p_new = ch.1.pool(ch.0);
    let am = pre.auth_channel.pool();
    let om = spec_tag(ids0, out0).to_multiset();
    let rm = spec_tag(run_ids, run).to_multiset();
    assert(post.pool() == bm.add(c_new).add(am).add(om.add(rm)));
    assert(pre.pool() == bm.insert(x).add(c_old).add(am).add(om));
    assert forall|v: Tagged| post.pool().count(v) <= pre.pool().count(v) by {
        assert(c_new.add(p_old).count(v) == c_old.add(p_new).count(v));
        assert(p_new.add(rm).count(v) == pool_mid.count(v));
        assert(pool_mid.count(v) <= p_old.insert(x).count(v));
    }
}

/// Holding no more than a second that holds no more than a third.
proof fn lemma_pool_sub_trans(a: Multiset<Tagged>, b: Multiset<Tagged>, c: Multiset<Tagged>)
    requires
        a.subset_of(b),
        b.subset_of(c),
    ensures
        a.subset_of(c),
{
    assert forall|v: Tagged| a.count(v) <= c.count(v) by {
        assert(a.count(v) <= b.count(v));
        assert(b.count(v) <= c.count(v));
    }
}

/// Handing out the spawn at the front and then what the publish channel
/// hands out keeps no more than was held.
proof fn lemma_spawn_front_pool(
    pre: EntityChannelReceiver,
    post: EntityChannelReceiver,
    id: MessageIndex,
    msg: EntityMessage<()>,
    apool_mid: Multiset<Tagged>,
    auth_ids: Seq<MessageIndex>,
    auth_out: Seq<EntityMessage<()>>,
)
    requires
        pre.wf(),
        pre.buffered_messages@.len() > 0,
        pre.buffered_messages@[0] == (id, msg),
        post.buffered_messages@ == pre.buffered_messages@.drop_first(),
        post.component_channels@ == pre.component_channels@,
        apool_mid.subset_of(pre.auth_channel.pool()),
        post.auth_channel.pool().add(spec_tag(auth_ids, auth_out).to_multiset()) == apool_mid,
        auth_ids.len() == auth_out.len(),
        post.out_ids@ == pre.out_ids@.push(id) + auth_ids,
        post.outgoing_messages@ == pre.outgoing_messages@.push(msg) + auth_out,
    ensures
        post.pool().subset_of(pre.pool()),
{
    broadcast use vstd::multiset::group_multiset_axioms;

    let x = (id, msg);
    lemma_drop_first_multiset(pre.buffered_messages@);
    lemma_tag_push(pre.out_ids@, pre.outgoing_messages@, id, msg);
    let tp = spec_tag(pre.out_ids@, pre.outgoing_messages@);
    vstd::seq_lib::to_multiset_build(tp, x);
    lemma_tag_append(pre.out_ids@.push(id), pre.outgoing_messages@.push(msg), auth_ids, auth_out);
    vstd::seq_lib::lemma_multiset_commutative(tp.push(x), spec_tag(auth_ids, auth_out));
    let bm = post.buffered_messages@.to_multiset();
    let cm = spec_components_pool(pre.component_channels@);
    let om = tp.to_multiset();
    let rm = spec_tag(auth_ids, auth_out).to_multiset();
    let am = post.auth_channel.pool();
    assert(post.pool() == bm.add(cm).add(am).add(om.insert(x).add(rm)));
    assert(pre.pool() == bm.insert(x).add(cm).add(pre.auth_channel.pool()).add(om));
    assert forall|v: Tagged| post.pool().count(v) <= pre.pool().count(v) by {
        assert(am.add(rm).count(v) == apool_mid.count(v));
        assert(apool_mid.count(v) <= pre.auth_channel.pool().count(v));
    }
}

/// One component channel dropping stale messages and handing out a run
/// that follows the earlier messages keeps no more than was held.
proof fn lemma_component_step_pool(
    pre: EntityChannelReceiver,
    post: EntityChannelReceiver,
    ci: int,
    ch: (ComponentKind, ComponentChannel),
    pool_mid: Multiset<Tagged>,
    run_ids: Seq<MessageIndex>,
    run: Seq<EntityMessage<()>>,
)
    requires
        pre.out_ids@.len() == pre.outgoing_messages@.len(),
        post.buffered_messages@ == pre.buffered_messages@,
        0 <= ci < pre.component_channels@.len(),
        post.component_channels@ == pre.component_channels@.update(ci, ch),
        ch.0 == pre.component_channels@[ci].0,
        pool_mid.subset_of(pre.component_channels@[ci].1.pool(ch.0)),
        ch.1.pool(ch.0).add(spec_tag(run_ids, run).to_multiset()) == pool_mid,
        post.auth_channel == pre.auth_channel,
        run_ids.len() == run.len(),
        post.out_ids@ == pre.out_ids@ + run_ids,
        post.outgoing_messages@ == pre.outgoing_messages@ + run,
    ensures
        post.pool().subset_of(pre.pool()),
{
    broadcast use vstd::multiset::group_multiset_axioms;

    let before = pre.component_channels@;
    lemma_components_pool_update(before, ci, ch);
    lemma_tag_append(pre.out_ids@, pre.outgoing_messages@, run_ids, run);
    vstd::seq_lib::lemma_multiset_commutative(spec_tag(pre.out_ids@, pre.outgoing_messages@), spec_tag(run_ids, run));
    let bm = pre.buffered_messages@.to_multiset();
    let c_new = spec_components_pool(post.component_channels@);
    let c_old = spec_components_pool(before);
    let p_old = before[ci].1.pool(before[ci].0);
    let p_new = ch.1.pool(ch.0);
    let am = pre.auth_channel.pool();
    let om = spec_tag(pre.out_ids@, pre.outgoing_messages@).to_multiset();
    let rm = spec_tag(run_ids, run).to_multiset();
    assert(post.pool() == bm.add(c_new).add(am).add(om.add(rm)));
    assert(pre.pool() == bm.add(c_old).add(am).add(om));
    assert forall|v: Tagged| post.pool().count(v) <= pre.pool().count(v) by {
        assert(c_new.add(p_old).count(v) == c_old.add(p_new).count(v));
        assert(p_new.add(rm).count(v) == pool_mid.count(v));
        assert(pool_mid.count(v) <= p_old.count(v));
    }
}

/// The message kinds an entity channel takes in.
pub open spec fn spec_channel_message(m: EntityMessage<()>) -> bool {
    ||| m is Spawn
    ||| m is Despawn
    ||| m is InsertComponent
    ||| m is RemoveComponent
    ||| spec_auth_kind(spec_message_type(m))
}


/// A message of a legal run is one an entity channel takes in.
pub proof fn lemma_sync_replay_kinds(host_type: HostType, l: SyncLife, s: Seq<EntityMessage<()>>, i: int)
    requires
        spec_sync_replay(host_type, l, s) is Some,
        0 <= i < s.len(),
    ensures
        spec_channel_message(s[i]),
    decreases s.len(),
{
    let next = spec_sync_step(host_type, l, s[0]);
    if i == 0 {
        if !(s[0] is Spawn || s[0] is Despawn || s[0] is InsertComponent || s[0] is RemoveComponent) {
            assert(spec_auth_step(l.auth, spec_message_type(s[0])) is Some);
        }
    } else {
        lemma_sync_replay_kinds(host_type, next->0, s.drop_first(), i - 1);
    }
}

/// What is left waiting of the messages `b` once those that can be applied
/// from the front are applied, starting spawned or not: a spawn waits while
/// the entity exists, a despawn while it does not; a despawn that applies
/// drops everything still waiting; every other message always applies.
pub open spec fn spec_entity_rest(spawned: bool, b: Seq<(MessageIndex, EntityMessage<()>)>) -> Seq<
    (MessageIndex, EntityMessage<()>),
>
    decreases b.len(),
{
    if b.len() == 0 {
        b
    } else if b[0].1 is Spawn {
        if spawned {
            b
        } else {
            spec_entity_rest(true, b.drop_first())
        }
    } else if b[0].1 is Despawn {
        if spawned {
            Seq::empty()
        } else {
            b
        }
    } else {
        spec_entity_rest(spawned, b.drop_first())
    }
}

/// Whether the entity exists once the messages of `b` that can be applied
/// from the front are applied, as in `spec_entity_rest`.
pub open spec fn spec_entity_spawned_after(spawned: bool, b: Seq<(MessageIndex, EntityMessage<()>)>) -> bool
    decreases b.len(),
{
    if b.len() == 0 {
        spawned
    } else if b[0].1 is Spawn {
        if spawned {
            spawned
        } else {
            spec_entity_spawned_after(true, b.drop_first())
        }
    } else if b[0].1 is Despawn {
        false
    } else {
        spec_entity_spawned_after(spawned, b.drop_first())
    }
}

/// The index of the last spawn or despawn that took effect once the
/// messages of `b` that can be applied from the front are applied.
pub open spec fn spec_entity_epoch_after(
    epoch: Option<MessageIndex>,
    spawned: bool,
    b: Seq<(MessageIndex, EntityMessage<()>)>,
) -> Option<MessageIndex>
    decreases b.len(),
{
    if b.len() == 0 {
        epoch
    } else if b[0].1 is Spawn {
        if spawned {
            epoch
        } else {
            spec_entity_epoch_after(Some(b[0].0), true, b.drop_first())
        }
    } else if b[0].1 is Despawn {
        if spawned {
            Some(b[0].0)
        } else {
            epoch
        }
    } else {
        spec_entity_epoch_after(epoch, spawned, b.drop_first())
    }
}

/// What an entity channel holds, as bookkeeping: whether the entity exists,
/// the index of its last spawn or despawn that took effect, the messages
/// waiting, each component's bookkeeping in the order they were first seen,
/// and the publication's.
pub type EntityModel = (
    bool,
    Option<MessageIndex>,
    Seq<(MessageIndex, EntityMessage<()>)>,
    Seq<CompModel>,
    AuthModel,
);

/// A component's bookkeeping once a spawn under `id` took effect: waiting
/// messages older than the spawn are dropped and the ready ones handed out.
pub open spec fn spec_spawned_comp(c: CompModel, id: MessageIndex) -> CompModel {
    spec_comp_model_processed((c.0, c.1, spec_pop_until_excluding(c.2, id), c.3, c.4))
}

/// What the components hand out, in order, when a spawn under `id` takes
/// effect.
pub open spec fn spec_spawn_comps_out(cs: Seq<CompModel>, id: MessageIndex) -> Seq<EntityMessage<()>>
    decreases cs.len(),
{
    if cs.len() == 0 {
        Seq::empty()
    } else {
        spec_spawn_comps_out(cs.drop_last(), id) + spec_component_messages(
            spec_spawned_comp(cs.last(), id).4,
            cs.last().0,
        )
    }
}

/// A component's bookkeeping after a spawn under `id`, with what it handed
/// out drained.
pub open spec fn spec_spawned_drained(c: CompModel, id: MessageIndex) -> CompModel {
    let c2 = spec_spawned_comp(c, id);
    (c2.0, c2.1, c2.2, c2.3, Seq::empty())
}

/// The spawn under `id` at the front takes effect: it is handed out, then
/// what the publication hands out from its start state, then what each
/// component hands out.
pub open spec fn spec_spawn_step(h: HostType, m: EntityModel, id: MessageIndex) -> (EntityModel, Seq<EntityMessage<()>>) {
    let a1 = (spec_spawn_auth(h), spec_pop_until_including(m.4.1, id));
    let ap = spec_auth_model_processed(a1);
    (
        (true, Some(id), m.2.drop_first(), m.3.map_values(|c: CompModel| spec_spawned_drained(c, id)), ap.0),
        seq![EntityMessage::<()>::Spawn(())] + ap.1 + spec_spawn_comps_out(m.3, id),
    )
}

/// The despawn under `id` at the front takes effect: it is handed out, and
/// everything else is forgotten.
pub open spec fn spec_despawn_step(id: MessageIndex) -> (EntityModel, Seq<EntityMessage<()>>) {
    (
        (false, Some(id), Seq::empty(), Seq::empty(), (EntityAuthChannelState::Unpublished, Seq::empty())),
        seq![EntityMessage::<()>::Despawn(())],
    )
}

/// Where the component of kind `k` stands among `cs`, or -1.
pub open spec fn spec_comp_index(cs: Seq<CompModel>, k: ComponentKind) -> int
    decreases cs.len(),
{
    if cs.len() == 0 {
        -1
    } else if cs.last().0 == k {
        cs.len() - 1
    } else {
        spec_comp_index(cs.drop_last(), k)
    }
}

/// Where kinds are unique, the component of kind `k` stands where it was found.
pub proof fn lemma_comp_index_found(cs: Seq<CompModel>, k: ComponentKind, i: int)
    requires
        0 <= i < cs.len(),
        cs[i].0 == k,
        forall|j: int| 0 <= j < cs.len() && j != i ==> #[trigger] cs[j].0 != k,
    ensures
        spec_comp_index(cs, k) == i,
    decreases cs.len(),
{
    if i != cs.len() - 1 {
        let d = cs.drop_last();
        assert forall|j: int| 0 <= j < d.len() && j != i implies #[trigger] d[j].0 != k by {
            assert(d[j] == cs[j]);
        }
        assert(cs.last() == cs[cs.len() - 1]);
        lemma_comp_index_found(d, k, i);
    }
}

/// No component of kind `k` stands among `cs`.
pub proof fn lemma_comp_index_none(cs: Seq<CompModel>, k: ComponentKind)
    requires
        forall|j: int| 0 <= j < cs.len() ==> #[trigger] cs[j].0 != k,
    ensures
        spec_comp_index(cs, k) == -1,
    decreases cs.len(),
{
    if cs.len() > 0 {
        let d = cs.drop_last();
        assert forall|j: int| 0 <= j < d.len() implies #[trigger] d[j].0 != k by {
            assert(d[j] == cs[j]);
        }
        assert(cs.last() == cs[cs.len() - 1]);
        lemma_comp_index_none(d, k);
    }
}

/// The component message at the front goes to its component, which is
/// opened on first sight; while the entity exists, what it hands out follows.
pub open spec fn spec_component_step(m: EntityModel) -> (EntityModel, Seq<EntityMessage<()>>) {
    let id = m.2[0].0;
    let msg = m.2[0].1;
    let k = match msg {
        EntityMessage::InsertComponent(_, k) => k,
        EntityMessage::RemoveComponent(_, k) => k,
        _ => ComponentKind { id: 0 },
    };
    let idx = spec_comp_index(m.3, k);
    let c0 = if idx >= 0 {
        m.3[idx]
    } else {
        (k, false, Seq::<(MessageIndex, bool)>::empty(), None::<MessageIndex>, Seq::<EntityMessageType>::empty())
    };
    let c1 = spec_comp_model_accepted(c0, id, msg is InsertComponent);
    let c2 = if m.0 {
        (c1.0, c1.1, c1.2, c1.3, Seq::<EntityMessageType>::empty())
    } else {
        c1
    };
    let cs = if idx >= 0 {
        m.3.update(idx, c2)
    } else {
        m.3.push(c2)
    };
    (
        (m.0, m.1, m.2.drop_first(), cs, m.4),
        if m.0 {
            spec_component_messages(c1.4, k)
        } else {
            Seq::empty()
        },
    )
}

/// The publication message at the front goes to the publication; while the
/// entity exists, what became ready follows.
pub open spec fn spec_publication_step(m: EntityModel) -> (EntityModel, Seq<EntityMessage<()>>) {
    let id = m.2[0].0;
    let msg = m.2[0].1;
    let a1 = (m.4.0, m.4.1.insert(spec_push_position(m.4.1, id, m.4.1.len() as int), (id, msg)));
    let ap = if m.0 {
        spec_auth_model_processed(a1)
    } else {
        (a1, Seq::empty())
    };
    ((m.0, m.1, m.2.drop_first(), m.3, ap.0), ap.1)
}

/// The bookkeeping of an entity no message has reached yet.
pub open spec fn spec_fresh_entity_model() -> EntityModel {
    (
        false,
        None,
        Seq::empty(),
        Seq::empty(),
        (EntityAuthChannelState::Unpublished, Seq::empty()),
    )
}

/// An entity channel's bookkeeping with the message `msg` under `id` queued
/// by its index among those waiting.
pub open spec fn spec_entity_queued(m: EntityModel, id: MessageIndex, msg: EntityMessage<()>) -> EntityModel {
    (m.0, m.1, m.2.insert(spec_push_position(m.2, id, m.2.len() as int), (id, msg)), m.3, m.4)
}

/// What an entity channel ends as, and hands out, oldest first, once the
/// waiting messages that can take effect from the front have.
pub open spec fn spec_entity_run(h: HostType, m: EntityModel) -> (EntityModel, Seq<EntityMessage<()>>)
    decreases m.2.len(),
{
    if m.2.len() == 0 {
        (m, Seq::empty())
    } else if m.2[0].1 is Spawn {
        if m.0 {
            (m, Seq::empty())
        } else {
            let st = spec_spawn_step(h, m, m.2[0].0);
            let rest = spec_entity_run(h, st.0);
            (rest.0, st.1 + rest.1)
        }
    } else if m.2[0].1 is Despawn {
        if m.0 {
            spec_despawn_step(m.2[0].0)
        } else {
            (m, Seq::empty())
        }
    } else if m.2[0].1 is InsertComponent || m.2[0].1 is RemoveComponent {
        let st = spec_component_step(m);
        let rest = spec_entity_run(h, st.0);
        (rest.0, st.1 + rest.1)
    } else {
        let st = spec_publication_step(m);
        let rest = spec_entity_run(h, st.0);
        (rest.0, st.1 + rest.1)
    }
}

/// Reorders the messages of one entity.
pub struct EntityChannelReceiver {
    host_type: HostType,
    component_channels: Vec<(ComponentKind, ComponentChannel)>,
    outgoing_messages: Vec<EntityMessage<()>>,
    state: EntityChannelState,
    auth_channel: AuthChannelReceiver,
    buffered_messages: OrderedIds<EntityMessage<()>>,
    last_epoch_id: Option<MessageIndex>,
    drained_life: Ghost<SyncLife>,
    out_ids: Ghost<Seq<MessageIndex>>,
}

impl EntityChannelReceiver {
    /// What the messages handed out so far say of the entity.
    pub closed spec fn life(&self) -> SyncLife {
        SyncLife {
            spawned: self.state == EntityChannelState::Spawned,
            inserted: spec_drained_set(self.component_channels@),
            auth: self.auth_channel.drained_state(),
        }
    }

    /// What the messages drained so far say of the entity.
    pub closed spec fn drained_life(&self) -> SyncLife {
        self.drained_life@
    }

    /// The messages handed out and not yet drained, oldest first.
    pub closed spec fn outgoing(&self) -> Seq<EntityMessage<()>> {
        self.outgoing_messages@
    }

    pub closed spec fn spec_host_type(&self) -> HostType {
        self.host_type
    }

    /// The channel as bookkeeping.
    pub closed spec fn model(&self) -> EntityModel {
        (
            self.state == EntityChannelState::Spawned,
            self.last_epoch_id,
            self.buffered_messages@,
            self.component_channels@.map_values(|p: (ComponentKind, ComponentChannel)| spec_comp_model(p.0, p.1)),
            (self.auth_channel.state(), self.auth_channel.buffered()),
        )
    }

    /// The parts of the bookkeeping are what the other views report.
    pub proof fn lemma_model_parts(&self)
        ensures
            self.model().0 == self.life().spawned,
            self.model().1 == self.last_epoch(),
            self.model().2 == self.buffered(),
    {
    }

    /// The messages that arrived and wait, in order of their indices.
    pub closed spec fn buffered(&self) -> Seq<(MessageIndex, EntityMessage<()>)> {
        self.buffered_messages@
    }

    /// The index of the last spawn or despawn that took effect.
    pub closed spec fn last_epoch(&self) -> Option<MessageIndex> {
        self.last_epoch_id
    }

    /// The indices the messages handed out and not yet drained arrived under.
    pub closed spec fn out_ids(&self) -> Seq<MessageIndex> {
        self.out_ids@
    }

    /// Every message taken in and not yet drained or dropped, with its index.
    pub closed spec fn pool(&self) -> Multiset<Tagged> {
        self.buffered_messages@.to_multiset().add(spec_components_pool(self.component_channels@)).add(
            self.auth_channel.pool(),
        ).add(spec_tag(self.out_ids@, self.outgoing_messages@).to_multiset())
    }

    /// The components the entity has bookkeeping for.
    pub closed spec fn kinds(&self) -> Set<ComponentKind> {
        Set::new(|k: ComponentKind| exists|i: int| 0 <= i < self.component_channels@.len() && #[trigger] self.component_channels@[i].0 == k)
    }

    pub closed spec fn wf(&self) -> bool {
        &&& spec_unique_kinds(self.component_channels@)
        &&& forall|i: int| 0 <= i < self.component_channels@.len() ==> (#[trigger] self.component_channels@[i]).1.wf()
        &&& self.auth_channel.wf()
        &&& self.auth_channel.outgoing() == Seq::<EntityMessage<()>>::empty()
        &&& forall|i: int| 0 <= i < self.buffered_messages@.len() ==> spec_channel_message(#[trigger] self.buffered_messages@[i].1)
        &&& self.state == EntityChannelState::Spawned ==> forall|i: int| 0 <= i < self.component_channels@.len() ==> (
            #[trigger] self.component_channels@[i]).1.outgoing() == Seq::<EntityMessageType>::empty()
        &&& self.state == EntityChannelState::Despawned ==> forall|i: int| 0 <= i < self.component_channels@.len() ==> !(
            #[trigger] self.component_channels@[i]).1.drained_inserted()
        &&& spec_sync_replay(self.host_type, self.drained_life@, self.outgoing_messages@) == Some(self.life())
        &&& self.out_ids@.len() == self.outgoing_messages@.len()
    }

    pub fn new(host_type: HostType) -> (r: EntityChannelReceiver)
        ensures
            r.wf(),
            r.spec_host_type() == host_type,
            r.life() == (SyncLife { spawned: false, inserted: Set::empty(), auth: EntityAuthChannelState::Unpublished }),
            r.drained_life() == r.life(),
            r.outgoing() == Seq::<EntityMessage<()>>::empty(),
            r.last_epoch() is None,
            r.buffered() == Seq::<(MessageIndex, EntityMessage<()>)>::empty(),
            r.kinds() == Set::<ComponentKind>::empty(),
            r.pool() == Multiset::<Tagged>::empty(),
            r.model() == spec_fresh_entity_model(),
    {
        let r = EntityChannelReceiver {
            host_type,
            component_channels: Vec::new(),
            outgoing_messages: Vec::new(),
            state: EntityChannelState::Despawned,
            auth_channel: AuthChannelReceiver::new(),
            buffered_messages: OrderedIds::new(),
            last_epoch_id: None,
            drained_life: Ghost(
                SyncLife { spawned: false, inserted: Set::empty(), auth: EntityAuthChannelState::Unpublished },
            ),
            out_ids: Ghost(Seq::empty()),
        };
        proof {
            assert(spec_drained_set(r.component_channels@) =~= Set::<ComponentKind>::empty());
            assert(r.kinds() =~= Set::<ComponentKind>::empty());
            broadcast use {vstd::multiset::group_multiset_axioms, vstd::seq_lib::group_to_multiset_ensures};
            assert(spec_tag(r.out_ids@, r.outgoing_messages@) =~= Seq::<Tagged>::empty());
            assert(r.buffered_messages@ =~= Seq::<(MessageIndex, EntityMessage<()>)>::empty());
            assert(r.pool() =~= Multiset::<Tagged>::empty());
            assert(r.component_channels@.map_values(|p: (ComponentKind, ComponentChannel)| spec_comp_model(p.0, p.1))
                =~= Seq::<CompModel>::empty());
        }
        r
    }

    /// Whether the entity exists on this side.
    pub fn get_state(&self) -> (r: EntityChannelState)
        ensures
            (r == EntityChannelState::Spawned) == self.life().spawned,
    {
        self.state
    }

    fn find_component(&self, component_kind: &ComponentKind) -> (r: Option<usize>)
        ensures
            match r {
                Some(i) => i < self.component_channels@.len() && self.component_channels@[i as int].0 == *component_kind,
                None => forall|i: int| 0 <= i < self.component_channels@.len() ==> #[trigger] self.component_channels@[i].0
                    != *component_kind,
            },
    {
        let mut i: usize = 0;
        while i < self.component_channels.len()
            invariant
                i <= self.component_channels@.len(),
                forall|j: int| 0 <= j < i ==> #[trigger] self.component_channels@[j].0 != *component_kind,
            decreases self.component_channels@.len() - i,
        {
            if self.component_channels[i].0 == *component_kind {
                return Some(i);
            }
            i += 1;
        }
        None
    }

    /// Whether the entity has bookkeeping for `component_kind`.
    pub fn has_component_kind(&self, component_kind: &ComponentKind) -> (r: bool)
        ensures
            r == self.kinds().contains(*component_kind),
    {
        match self.find_component(component_kind) {
            Some(i) => {
                assert(self.component_channels@[i as int].0 == *component_kind);
                true
            },
            None => false,
        }
    }

    /// The waiting spawn at the front takes effect: messages older than it
    /// are dropped, it is handed out, the publish state starts over, and the
    /// publish and component messages that became legal follow it.
    #[verifier::rlimit(40)]
    fn apply_spawn(&mut self, id: MessageIndex)
        requires
            old(self).wf(),
            old(self).state == EntityChannelState::Despawned,
            old(self).buffered_messages@.len() > 0,
            old(self).buffered_messages@[0].0 == id,
            old(self).buffered_messages@[0].1 is Spawn,
        ensures
            final(self).model() == spec_spawn_step(old(self).host_type, old(self).model(), id).0,
            final(self).outgoing_messages@ == old(self).outgoing_messages@ + spec_spawn_step(
                old(self).host_type,
                old(self).model(),
                id,
            ).1,
            final(self).buffered_messages@ == old(self).buffered_messages@.drop_first(),
            final(self).state == EntityChannelState::Spawned,
            final(self).wf(),
            final(self).drained_life@ == old(self).drained_life@,
            final(self).host_type == old(self).host_type,
            final(self).buffered_messages@.len() < old(self).buffered_messages@.len(),
            final(self).last_epoch_id == Some(id),
            final(self).pool().subset_of(old(self).pool()),
    {
        let ghost life0 = self.life();
        let ghost out0 = self.outgoing_messages@;
        let ghost b0 = self.buffered_messages@;
        let ghost ids0 = self.out_ids@;
        let ghost apool0 = self.auth_channel.pool();
        let ghost m0 = self.model();
        self.state = EntityChannelState::Spawned;
        self.last_epoch_id = Some(id);
        self.buffered_messages.pop_front_until_and_excluding(id);
        proof {
            let b1 = self.buffered_messages@;
            let k = choose|k: int|
                0 <= k <= b0.len() && b1 == b0.subrange(k, b0.len() as int)
                    && (forall|j: int| 0 <= j < k ==> spec_sequence_greater_than(id, #[trigger] b0[j].0))
                    && (k == b0.len() || !spec_sequence_greater_than(id, b0[k].0));
            if k > 0 {
                assert(spec_sequence_greater_than(id, b0[0].0));
            }
            assert(b1 =~= b0);
        }
        let msg = match self.buffered_messages.pop_front() {
            Some((_, m)) => m,
            None => EntityMessage::Spawn(()),
        };
        self.outgoing_messages.push(msg);
        proof {
            self.out_ids = Ghost(ids0.push(id));
        }
        let ghost a_start = self.auth_channel;
        self.auth_channel.buffer_pop_front_until_and_including(id);
        if self.host_type == HostType::Client {
            self.auth_channel.set_published();
        } else {
            self.auth_channel.set_unpublished();
        }
        let ghost life1 = self.life();
        proof {
            assert(spec_drained_set(self.component_channels@) =~= Set::<ComponentKind>::empty()) by {
                let s = self.component_channels@;
                assert forall|k: ComponentKind| !spec_drained_set(s).contains(k) by {
                    if spec_drained_set(s).contains(k) {
                        let j = choose|j: int| 0 <= j < s.len() && s[j].0 == k && #[trigger] s[j].1.drained_inserted();
                        assert(!s[j].1.drained_inserted());
                    }
                }
            }
            assert(life0.inserted =~= Set::<ComponentKind>::empty());
            assert(spec_sync_step(self.host_type, life0, msg) == Some(life1));
            lemma_sync_replay_single(self.host_type, life0, msg);
            lemma_sync_replay_append(self.host_type, self.drained_life@, out0, seq![msg]);
            assert(out0 + seq![msg] =~= self.outgoing_messages@);
        }
        let ghost a_set = self.auth_channel;
        self.auth_channel.process_messages(true);
        let ghost out1 = self.outgoing_messages@;
        let ghost ids1 = self.out_ids@;
        let ghost auth_out = self.auth_channel.outgoing();
        let ghost auth_ids = self.auth_channel.out_ids();
        let ghost apool1 = self.auth_channel.pool();
        self.auth_channel.drain_messages_into(&mut self.outgoing_messages);
        proof {
            self.out_ids = Ghost(ids1 + auth_ids);
            lemma_auth_run_replays(self.host_type, life1, auth_out);
            lemma_sync_replay_append(self.host_type, self.drained_life@, out1, auth_out);
            lemma_spawn_front_pool(*old(self), *self, id, msg, apool1, auth_ids, auth_out);
            match msg {
                EntityMessage::Spawn(u) => assert(u == ()),
                _ => {},
            }
            let a1 = (spec_spawn_auth(self.host_type), spec_pop_until_including(m0.4.1, id));
            assert(a_set.state() == a1.0 && a_set.buffered() == a1.1);
            let kk = crate::sync::auth_channel_receiver::spec_auth_ready(a1.0, a1.1) as int;
            assert(auth_out =~= crate::ordered_ids::spec_items_of(a1.1.subrange(0, kk)));
            assert((self.auth_channel.state(), self.auth_channel.buffered()) == spec_auth_model_processed(a1).0);
            assert(self.outgoing_messages@ =~= old(self).outgoing_messages@ + seq![EntityMessage::<()>::Spawn(())]
                + spec_auth_model_processed(a1).1);
        }
        let ghost out_base = self.outgoing_messages@;
        let ghost s0 = self.component_channels@;
        let ghost cs0 = s0.map_values(|p: (ComponentKind, ComponentChannel)| spec_comp_model(p.0, p.1));
        proof {
            assert(cs0 == m0.3);
            assert(cs0.take(0) =~= Seq::<CompModel>::empty());
            assert(out_base =~= out_base + spec_spawn_comps_out(cs0.take(0), id));
        }
        let ghost pre = *self;
        let mut i: usize = 0;
        while i < self.component_channels.len()
            invariant
                self.host_type == pre.host_type,
                self.state == EntityChannelState::Spawned,
                self.auth_channel == pre.auth_channel,
                self.buffered_messages == pre.buffered_messages,
                self.last_epoch_id == pre.last_epoch_id,
                self.drained_life == pre.drained_life,
                self.component_channels@.len() == s0.len(),
                i <= s0.len(),
                spec_unique_kinds(self.component_channels@),
                forall|j: int| 0 <= j < s0.len() ==> (#[trigger] self.component_channels@[j]).1.wf()
                    && self.component_channels@[j].0 == s0[j].0,
                forall|j: int| i <= j < s0.len() ==> #[trigger] self.component_channels@[j] == s0[j],
                forall|j: int| 0 <= j < s0.len() ==> !(#[trigger] s0[j]).1.drained_inserted(),
                forall|j: int| 0 <= j < i ==> (#[trigger] self.component_channels@[j]).1.outgoing()
                    == Seq::<EntityMessageType>::empty(),
                spec_sync_replay(self.host_type, self.drained_life@, self.outgoing_messages@) == Some(self.life()),
                self.out_ids@.len() == self.outgoing_messages@.len(),
                self.pool().subset_of(old(self).pool()),
                cs0 == s0.map_values(|p: (ComponentKind, ComponentChannel)| spec_comp_model(p.0, p.1)),
                forall|j: int| 0 <= j < i ==> spec_comp_model(
                    (#[trigger] self.component_channels@[j]).0,
                    self.component_channels@[j].1,
                ) == spec_spawned_drained(cs0[j], id),
                self.outgoing_messages@ == out_base + spec_spawn_comps_out(cs0.take(i as int), id),
            decreases s0.len() - i,
        {
            let ghost before = self.component_channels@;
            let ghost life2 = self.life();
            let ghost out2 = self.outgoing_messages@;
            let ghost ids2 = self.out_ids@;
            let ghost pre_step = *self;
            let ghost pool_i0 = before[i as int].1.pool(before[i as int].0);
            let (kind, mut channel) = self.component_channels.remove(i);
            channel.buffer_pop_front_until_and_excluding(id);
            let ghost ch_popped = channel;
            channel.process_messages();
            proof {
                lemma_comp_model_process(kind, ch_popped, channel);
                assert(before[i as int] == s0[i as int]);
                assert(spec_comp_model(kind, channel) == spec_spawned_comp(cs0[i as int], id));
            }
            let ghost run = channel.outgoing();
            let ghost run_ids = channel.out_ids();
            let ghost pool_i1 = channel.pool(kind);
            channel.drain_messages_into(&kind, &mut self.outgoing_messages);
            self.component_channels.insert(i, (kind, channel));
            proof {
                self.out_ids = Ghost(ids2 + run_ids);
                assert(self.component_channels@ =~= before.update(i as int, (kind, channel)));
                lemma_component_step_pool(
                    pre_step,
                    *self,
                    i as int,
                    (kind, channel),
                    pool_i1,
                    run_ids,
                    spec_component_messages(run, kind),
                );
                lemma_pool_sub_trans(self.pool(), pre_step.pool(), old(self).pool());
                lemma_drained_set_update(before, i as int, (kind, channel));
                assert(!before[i as int].1.drained_inserted());
                lemma_component_run_replays(self.host_type, life2, kind, false, run);
                lemma_sync_replay_append(self.host_type, self.drained_life@, out2, spec_component_messages(run, kind));
                let target = SyncLife {
                    spawned: true,
                    inserted: if spec_toggle_run(false, run)->0 {
                        life2.inserted.insert(kind)
                    } else {
                        life2.inserted.remove(kind)
                    },
                    auth: life2.auth,
                };
                assert(target == self.life());
                let t1 = cs0.take(i + 1);
                assert(t1.drop_last() =~= cs0.take(i as int));
                assert(t1.last() == cs0[i as int]);
                assert(spec_spawn_comps_out(t1, id) == spec_spawn_comps_out(cs0.take(i as int), id)
                    + spec_component_messages(spec_spawned_comp(cs0[i as int], id).4, cs0[i as int].0));
                assert(cs0[i as int].0 == kind);
                assert(self.outgoing_messages@ =~= out_base + spec_spawn_comps_out(t1, id));
                assert forall|j: int| 0 <= j < i + 1 implies spec_comp_model(
                    (#[trigger] self.component_channels@[j]).0,
                    self.component_channels@[j].1,
                ) == spec_spawned_drained(cs0[j], id) by {
                    if j < i {
                        assert(self.component_channels@[j] == before[j]);
                    }
                }
            }
            i += 1;
        }
        proof {
            assert(cs0.take(s0.len() as int) =~= cs0);
            assert(self.component_channels@.map_values(|p: (ComponentKind, ComponentChannel)| spec_comp_model(p.0, p.1))
                =~= cs0.map_values(|c: CompModel| spec_spawned_drained(c, id)));
            assert(self.buffered_messages@ =~= m0.2.drop_first());
            assert(self.model() == spec_spawn_step(self.host_type, m0, id).0);
            assert(self.outgoing_messages@ =~= old(self).outgoing_messages@ + spec_spawn_step(self.host_type, m0, id).1);
        }
    }

    /// The waiting despawn at the front takes effect: it is handed out, and
    /// every component, every publication and every waiting message is forgotten.
    fn apply_despawn(&mut self, id: MessageIndex)
        requires
            old(self).wf(),
            old(self).state == EntityChannelState::Spawned,
            old(self).buffered_messages@.len() > 0,
            old(self).buffered_messages@[0].0 == id,
            old(self).buffered_messages@[0].1 is Despawn,
        ensures
            final(self).model() == spec_despawn_step(id).0,
            final(self).outgoing_messages@ == old(self).outgoing_messages@ + spec_despawn_step(id).1,
            final(self).buffered_messages@ == Seq::<(MessageIndex, EntityMessage<()>)>::empty(),
            final(self).state == EntityChannelState::Despawned,
            final(self).wf(),
            final(self).drained_life@ == old(self).drained_life@,
            final(self).host_type == old(self).host_type,
            final(self).buffered_messages@.len() < old(self).buffered_messages@.len(),
            final(self).last_epoch_id == Some(id),
            final(self).pool().subset_of(old(self).pool()),
    {
        let ghost life0 = self.life();
        let ghost out0 = self.outgoing_messages@;
        let ghost pre = *self;
        self.state = EntityChannelState::Despawned;
        self.last_epoch_id = Some(id);
        self.auth_channel.reset();
        self.component_channels.clear();
        let msg = match self.buffered_messages.pop_front() {
            Some((_, m)) => m,
            None => EntityMessage::Despawn(()),
        };
        self.outgoing_messages.push(msg);
        self.buffered_messages.clear();
        proof {
            match msg {
                EntityMessage::Despawn(u) => assert(u == ()),
                _ => {},
            }
            assert(self.component_channels@.map_values(|p: (ComponentKind, ComponentChannel)| spec_comp_model(p.0, p.1))
                =~= Seq::<CompModel>::empty());
            assert(self.outgoing_messages@ =~= old(self).outgoing_messages@ + spec_despawn_step(id).1);
            self.out_ids = Ghost(self.out_ids@.push(id));
            lemma_despawn_pool(pre, *self, id, msg);
            assert(spec_drained_set(self.component_channels@) =~= Set::<ComponentKind>::empty());
            assert(spec_sync_step(self.host_type, life0, msg) == Some(self.life()));
            lemma_sync_replay_single(self.host_type, life0, msg);
            lemma_sync_replay_append(self.host_type, self.drained_life@, out0, seq![msg]);
            assert(out0 + seq![msg] =~= self.outgoing_messages@);
        }
    }

    /// The component message at the front goes to its component's channel;
    /// while the entity is spawned, what that channel hands out follows at once.
    fn apply_component(&mut self)
        requires
            old(self).wf(),
            old(self).buffered_messages@.len() > 0,
            old(self).buffered_messages@[0].1 is InsertComponent || old(self).buffered_messages@[0].1 is RemoveComponent,
        ensures
            final(self).model() == spec_component_step(old(self).model()).0,
            final(self).outgoing_messages@ == old(self).outgoing_messages@ + spec_component_step(old(self).model()).1,
            final(self).buffered_messages@ == old(self).buffered_messages@.drop_first(),
            final(self).state == old(self).state,
            final(self).wf(),
            final(self).drained_life@ == old(self).drained_life@,
            final(self).host_type == old(self).host_type,
            final(self).buffered_messages@.len() < old(self).buffered_messages@.len(),
            final(self).last_epoch_id == old(self).last_epoch_id,
            final(self).pool().subset_of(old(self).pool()),
    {
        let ghost m0 = self.model();
        let ghost before0 = self.component_channels@;
        let ghost mut was_new = false;
        let (id, msg) = match self.buffered_messages.pop_front() {
            Some(p) => p,
            None => (0, EntityMessage::Noop),
        };
        let component_kind = match msg.component_kind() {
            Some(k) => k,
            None => ComponentKind::new(0),
        };
        let ci = match self.find_component(&component_kind) {
            Some(i) => i,
            None => {
                let ghost s = self.component_channels@;
                let fresh = ComponentChannel::new();
                self.component_channels.push((component_kind, fresh));
                proof {
                    was_new = true;
                    broadcast use vstd::multiset::group_multiset_axioms;
                    lemma_components_pool_push(s, (component_kind, fresh));
                    assert(spec_components_pool(self.component_channels@) =~= spec_components_pool(s));
                    lemma_drained_set_push(s, (component_kind, fresh));
                    assert forall|j: int| 0 <= j < self.component_channels@.len() implies (
                        #[trigger] self.component_channels@[j]).1.wf() by {
                        if j < s.len() {
                            assert(self.component_channels@[j] == s[j]);
                        }
                    }
                }
                self.component_channels.len() - 1
            },
        };
        let ghost before = self.component_channels@;
        let ghost life0 = self.life();
        let ghost out0 = self.outgoing_messages@;
        let ghost ids0 = self.out_ids@;
        let ghost x = (id, msg);
        proof {
            lemma_drained_set_update(before, ci as int, before[ci as int]);
            assert(old(self).buffered_messages@[0] == x);
            lemma_drop_first_multiset(old(self).buffered_messages@);
            assert(before[ci as int].0 == component_kind);
        }
        let ghost pool_ci0 = before[ci as int].1.pool(component_kind);
        let (kind, mut channel) = self.component_channels.remove(ci);
        let ghost ch_pre = channel;
        channel.accept_message(id, msg);
        let ghost ch_acc = channel;
        let ghost pool_ci1 = channel.pool(kind);
        proof {
            lemma_comp_model_accept(kind, ch_pre, ch_acc, id, msg is InsertComponent);
        }
        proof {
            assert(msg == old(self).buffered_messages@[0].1);
            assert(kind == component_kind);
            match msg {
                EntityMessage::InsertComponent(u, k) => {
                    assert(u == ());
                    assert(k == component_kind);
                },
                EntityMessage::RemoveComponent(u, k) => {
                    assert(u == ());
                    assert(k == component_kind);
                },
                _ => {},
            }
            assert(spec_comp_msg(msg is InsertComponent, kind) == msg);
            assert(pool_ci1.subset_of(pool_ci0.insert(x)));
        }
        if self.state == EntityChannelState::Spawned {
            let ghost run = channel.outgoing();
            let ghost run_ids = channel.out_ids();
            proof {
                assert(before[ci as int].1.outgoing() == Seq::<EntityMessageType>::empty());
            }
            channel.drain_messages_into(&kind, &mut self.outgoing_messages);
            self.component_channels.insert(ci, (kind, channel));
            proof {
                self.out_ids = Ghost(ids0 + run_ids);
                assert(self.component_channels@ =~= before.update(ci as int, (kind, channel)));
                lemma_component_move_pool(
                    *old(self),
                    *self,
                    before,
                    ci as int,
                    (kind, channel),
                    x,
                    pool_ci1,
                    ids0,
                    out0,
                    run_ids,
                    spec_component_messages(run, kind),
                );
                assert(self.component_channels@ =~= before.update(ci as int, (kind, channel)));
                lemma_drained_set_update(before, ci as int, (kind, channel));
                let start = before[ci as int].1.drained_inserted();
                lemma_component_run_replays(self.host_type, life0, kind, start, run);
                lemma_sync_replay_append(self.host_type, self.drained_life@, out0, spec_component_messages(run, kind));
                let target = SyncLife {
                    spawned: true,
                    inserted: if spec_toggle_run(start, run)->0 {
                        life0.inserted.insert(kind)
                    } else {
                        life0.inserted.remove(kind)
                    },
                    auth: life0.auth,
                };
                assert(target == self.life());
                assert forall|j: int| 0 <= j < self.component_channels@.len() implies (
                    #[trigger] self.component_channels@[j]).1.outgoing() == Seq::<EntityMessageType>::empty() by {
                    if j != ci {
                        assert(self.component_channels@[j] == before[j]);
                    }
                }
            }
        } else {
            self.component_channels.insert(ci, (kind, channel));
            proof {
                assert(self.component_channels@ =~= before.update(ci as int, (kind, channel)));
                assert(ids0 + Seq::<MessageIndex>::empty() =~= ids0);
                assert(out0 + Seq::<EntityMessage<()>>::empty() =~= out0);
                assert(spec_tag(Seq::empty(), Seq::empty()).to_multiset() =~= Multiset::<Tagged>::empty()) by {
                    broadcast use vstd::seq_lib::group_to_multiset_ensures;
                    assert(spec_tag(Seq::empty(), Seq::empty()) =~= Seq::<Tagged>::empty());
                }
                assert(pool_ci1.add(Multiset::<Tagged>::empty()) =~= pool_ci1) by {
                    broadcast use vstd::multiset::group_multiset_axioms;
                }
                lemma_component_move_pool(
                    *old(self),
                    *self,
                    before,
                    ci as int,
                    (kind, channel),
                    x,
                    pool_ci1,
                    ids0,
                    out0,
                    Seq::empty(),
                    Seq::empty(),
                );
                lemma_drained_set_update(before, ci as int, (kind, channel));
                assert(spec_drained_set(self.component_channels@) =~= spec_drained_set(before));
                assert forall|j: int| 0 <= j < self.component_channels@.len() implies !(
                    #[trigger] self.component_channels@[j]).1.drained_inserted() by {
                    if j != ci {
                        assert(self.component_channels@[j] == before[j]);
                    }
                }
            }
        }
        proof {
            assert forall|j: int| 0 <= j < self.component_channels@.len() implies (
                #[trigger] self.component_channels@[j]).1.wf() by {
                if j != ci {
                    assert(self.component_channels@[j] == before[j]);
                }
            }
            assert forall|j: int| 0 <= j < self.buffered_messages@.len() implies spec_channel_message(
                #[trigger] self.buffered_messages@[j].1,
            ) by {
                assert(self.buffered_messages@[j] == old(self).buffered_messages@[j + 1]);
            }
        }
        proof {
            let k = component_kind;
            let cs0 = m0.3;
            assert(old(self).buffered_messages@[0] == (id, msg));
            assert(m0.2[0] == (id, msg));
            let c0 = if was_new {
                (k, false, Seq::<(MessageIndex, bool)>::empty(), None::<MessageIndex>, Seq::<EntityMessageType>::empty())
            } else {
                cs0[ci as int]
            };
            if was_new {
                assert forall|j: int| 0 <= j < cs0.len() implies #[trigger] cs0[j].0 != k by {
                    assert(cs0[j].0 == before0[j].0);
                }
                lemma_comp_index_none(cs0, k);
                assert(before =~= before0.push((k, ch_pre)));
                assert(spec_comp_model(kind, ch_pre) =~= c0);
            } else {
                assert(before == before0);
                assert forall|j: int| 0 <= j < cs0.len() && j != ci implies #[trigger] cs0[j].0 != k by {
                    assert(cs0[j].0 == before0[j].0);
                    assert(before0[ci as int].0 == k);
                }
                lemma_comp_index_found(cs0, k, ci as int);
                assert(spec_comp_model(kind, ch_pre) == c0);
            }
            let c1 = spec_comp_model_accepted(c0, id, msg is InsertComponent);
            assert(spec_comp_model(kind, ch_acc) == c1);
            let fin = self.component_channels@[ci as int];
            assert(fin.0 == kind);
            let c2 = if m0.0 {
                (c1.0, c1.1, c1.2, c1.3, Seq::<EntityMessageType>::empty())
            } else {
                c1
            };
            assert(spec_comp_model(fin.0, fin.1) == c2);
            let st = spec_component_step(m0);
            if was_new {
                assert(self.component_channels@.map_values(|p: (ComponentKind, ComponentChannel)| spec_comp_model(p.0, p.1))
                    =~= cs0.push(c2));
            } else {
                assert(self.component_channels@.map_values(|p: (ComponentKind, ComponentChannel)| spec_comp_model(p.0, p.1))
                    =~= cs0.update(ci as int, c2));
            }
            assert(self.buffered_messages@ =~= m0.2.drop_first());
            assert(self.model() == st.0);
            if m0.0 {
                assert(self.outgoing_messages@ == old(self).outgoing_messages@ + st.1);
            } else {
                assert(self.outgoing_messages@ =~= old(self).outgoing_messages@ + st.1);
            }
        }
    }

    /// The publish or delegation message at the front goes to the publish
    /// channel; while the entity is spawned, what it hands out follows at once.
    fn apply_auth(&mut self)
        requires
            old(self).wf(),
            old(self).buffered_messages@.len() > 0,
            spec_auth_kind(spec_message_type(old(self).buffered_messages@[0].1)),
        ensures
            final(self).model() == spec_publication_step(old(self).model()).0,
            final(self).outgoing_messages@ == old(self).outgoing_messages@ + spec_publication_step(old(self).model()).1,
            final(self).buffered_messages@ == old(self).buffered_messages@.drop_first(),
            final(self).state == old(self).state,
            final(self).wf(),
            final(self).drained_life@ == old(self).drained_life@,
            final(self).host_type == old(self).host_type,
            final(self).buffered_messages@.len() < old(self).buffered_messages@.len(),
            final(self).last_epoch_id == old(self).last_epoch_id,
            final(self).pool() == old(self).pool(),
    {
        let (id, msg) = match self.buffered_messages.pop_front() {
            Some(p) => p,
            None => (0, EntityMessage::Publish(())),
        };
        let ghost life0 = self.life();
        let ghost out0 = self.outgoing_messages@;
        let ghost ids0 = self.out_ids@;
        let ghost apool0 = self.auth_channel.pool();
        let spawned = self.state == EntityChannelState::Spawned;
        let ghost a_pre = self.auth_channel;
        self.auth_channel.accept_message(spawned, id, msg);
        let ghost run = self.auth_channel.outgoing();
        let ghost run_ids = self.auth_channel.out_ids();
        let ghost apool1 = self.auth_channel.pool();
        let ghost a_mid = self.auth_channel;
        self.auth_channel.drain_messages_into(&mut self.outgoing_messages);
        proof {
            let m0 = old(self).model();
            assert(old(self).buffered_messages@[0] == (id, msg));
            let b1 = a_pre.buffered().insert(spec_push_position(a_pre.buffered(), id, a_pre.buffered().len() as int), (id, msg));
            if spawned {
                let k = crate::sync::auth_channel_receiver::spec_auth_ready(a_pre.state(), b1) as int;
                assert(a_mid.outgoing() =~= crate::ordered_ids::spec_items_of(b1.subrange(0, k)));
            } else {
                assert(run =~= Seq::<EntityMessage<()>>::empty());
            }
            assert(self.outgoing_messages@ =~= old(self).outgoing_messages@ + spec_publication_step(m0).1);
            assert(self.component_channels@ == old(self).component_channels@);
            assert(self.model() == spec_publication_step(m0).0);
            broadcast use vstd::multiset::group_multiset_axioms;
            self.out_ids = Ghost(ids0 + run_ids);
            let x = (id, msg);
            let b0 = old(self).buffered_messages@;
            assert(b0[0] == x);
            lemma_drop_first_multiset(b0);
            lemma_tag_append(ids0, out0, run_ids, run);
            vstd::seq_lib::lemma_multiset_commutative(spec_tag(ids0, out0), spec_tag(run_ids, run));
            let bm = self.buffered_messages@.to_multiset();
            let cm = spec_components_pool(self.component_channels@);
            let om = spec_tag(ids0, out0).to_multiset();
            let rm = spec_tag(run_ids, run).to_multiset();
            assert(self.auth_channel.pool().add(rm) == apool1);
            assert(apool1 == apool0.insert(x));
            assert(self.pool() == bm.add(cm).add(self.auth_channel.pool()).add(om.add(rm)));
            assert(old(self).pool() == bm.insert(x).add(cm).add(apool0).add(om));
            let am = self.auth_channel.pool();
            assert forall|v: Tagged| self.pool().count(v) == old(self).pool().count(v) by {
                assert(am.add(rm).count(v) == apool0.insert(x).count(v));
            }
            assert(self.pool() =~= old(self).pool());
            if spawned {
                lemma_auth_run_replays(self.host_type, life0, run);
                lemma_sync_replay_append(self.host_type, self.drained_life@, out0, run);
            } else {
                assert(run == Seq::<EntityMessage<()>>::empty());
                assert(self.outgoing_messages@ =~= out0);
            }
            assert forall|j: int| 0 <= j < self.buffered_messages@.len() implies spec_channel_message(
                #[trigger] self.buffered_messages@[j].1,
            ) by {
                assert(self.buffered_messages@[j] == old(self).buffered_messages@[j + 1]);
            }
        }
    }

    /// Applies waiting messages from the front while the front one is legal:
    /// a spawn only when despawned, a despawn only when spawned; component
    /// and publish messages always go on to their own channels.
    fn process_messages(&mut self)
        requires
            old(self).wf(),
        ensures
            final(self).wf(),
            final(self).drained_life@ == old(self).drained_life@,
            final(self).host_type == old(self).host_type,
            old(self).last_epoch_id is Some ==> final(self).last_epoch_id is Some,
            final(self).pool().subset_of(old(self).pool()),
            final(self).model() == spec_entity_run(old(self).host_type, old(self).model()).0,
            final(self).outgoing_messages@ == old(self).outgoing_messages@ + spec_entity_run(
                old(self).host_type,
                old(self).model(),
            ).1,
            final(self).buffered() == spec_entity_rest(old(self).life().spawned, old(self).buffered()),
            final(self).life().spawned == spec_entity_spawned_after(old(self).life().spawned, old(self).buffered()),
            final(self).last_epoch() == spec_entity_epoch_after(
                old(self).last_epoch(),
                old(self).life().spawned,
                old(self).buffered(),
            ),
    {
        loop
            invariant
                self.wf(),
                self.drained_life@ == old(self).drained_life@,
                self.host_type == old(self).host_type,
                old(self).last_epoch_id is Some ==> self.last_epoch_id is Some,
                self.pool().subset_of(old(self).pool()),
                spec_entity_run(old(self).host_type, old(self).model()).0 == spec_entity_run(self.host_type, self.model()).0,
                old(self).outgoing_messages@ + spec_entity_run(old(self).host_type, old(self).model()).1
                    == self.outgoing_messages@ + spec_entity_run(self.host_type, self.model()).1,
                spec_entity_rest(old(self).life().spawned, old(self).buffered_messages@) == spec_entity_rest(
                    self.state == EntityChannelState::Spawned,
                    self.buffered_messages@,
                ),
                spec_entity_spawned_after(old(self).life().spawned, old(self).buffered_messages@)
                    == spec_entity_spawned_after(self.state == EntityChannelState::Spawned, self.buffered_messages@),
                spec_entity_epoch_after(old(self).last_epoch_id, old(self).life().spawned, old(self).buffered_messages@)
                    == spec_entity_epoch_after(
                    self.last_epoch_id,
                    self.state == EntityChannelState::Spawned,
                    self.buffered_messages@,
                ),
            ensures
                self.wf(),
                self.drained_life@ == old(self).drained_life@,
                self.host_type == old(self).host_type,
                old(self).last_epoch_id is Some ==> self.last_epoch_id is Some,
                self.pool().subset_of(old(self).pool()),
                spec_entity_run(old(self).host_type, old(self).model()).0 == self.model(),
                self.outgoing_messages@ == old(self).outgoing_messages@ + spec_entity_run(old(self).host_type, old(self).model()).1,
                spec_entity_rest(old(self).life().spawned, old(self).buffered_messages@) == self.buffered_messages@,
                spec_entity_spawned_after(old(self).life().spawned, old(self).buffered_messages@) == (self.state
                    == EntityChannelState::Spawned),
                spec_entity_epoch_after(old(self).last_epoch_id, old(self).life().spawned, old(self).buffered_messages@)
                    == self.last_epoch_id,
            decreases self.buffered_messages@.len(),
        {
            let ghost pre_step = self.pool();
            let ghost m_pre = self.model();
            let ghost out_pre = self.outgoing_messages@;
            let ghost h = self.host_type;
            let (id, msg) = match self.buffered_messages.peek_front() {
                Some(front) => *front,
                None => {
                    proof {
                        assert(self.outgoing_messages@ + Seq::<EntityMessage<()>>::empty() =~= self.outgoing_messages@);
                    }
                    break;
                },
            };
            proof {
                assert(spec_channel_message(self.buffered_messages@[0].1));
                assert(m_pre.2[0] == (id, msg));
            }
            match msg {
                EntityMessage::Spawn(_) => {
                    if self.state != EntityChannelState::Despawned {
                        proof {
                            assert(self.outgoing_messages@ + Seq::<EntityMessage<()>>::empty() =~= self.outgoing_messages@);
                        }
                        break;
                    }
                    self.apply_spawn(id);
                    proof {
                        let st = spec_spawn_step(h, m_pre, id);
                        let rest = spec_entity_run(h, st.0);
                        assert(spec_entity_run(h, m_pre) == (rest.0, st.1 + rest.1));
                        assert(out_pre + (st.1 + rest.1) =~= (out_pre + st.1) + rest.1);
                    }
                },
                EntityMessage::Despawn(_) => {
                    if self.state != EntityChannelState::Spawned {
                        proof {
                            assert(self.outgoing_messages@ + Seq::<EntityMessage<()>>::empty() =~= self.outgoing_messages@);
                        }
                        break;
                    }
                    self.apply_despawn(id);
                    proof {
                        assert(spec_entity_run(h, m_pre) == spec_despawn_step(id));
                        assert(spec_entity_run(h, self.model()).1 =~= Seq::<EntityMessage<()>>::empty());
                        assert(self.outgoing_messages@ + Seq::<EntityMessage<()>>::empty() =~= self.outgoing_messages@);
                    }
                },
                EntityMessage::InsertComponent(_, _) | EntityMessage::RemoveComponent(_, _) => {
                    self.apply_component();
                    proof {
                        let st = spec_component_step(m_pre);
                        let rest = spec_entity_run(h, st.0);
                        assert(spec_entity_run(h, m_pre) == (rest.0, st.1 + rest.1));
                        assert(out_pre + (st.1 + rest.1) =~= (out_pre + st.1) + rest.1);
                    }
                },
                _ => {
                    self.apply_auth();
                    proof {
                        let st = spec_publication_step(m_pre);
                        let rest = spec_entity_run(h, st.0);
                        assert(spec_entity_run(h, m_pre) == (rest.0, st.1 + rest.1));
                        assert(out_pre + (st.1 + rest.1) =~= (out_pre + st.1) + rest.1);
                    }
                },
            }
            proof {
                lemma_pool_sub_trans(self.pool(), pre_step, old(self).pool());
            }
        }
    }

    /// Takes in a message about this entity, unless it is older than the last
    /// spawn or despawn that took effect, and hands out what became legal.
    pub fn accept_message(&mut self, id: MessageIndex, msg: EntityMessage<()>)
        requires
            old(self).wf(),
            spec_channel_message(msg),
            old(self).last_epoch() != Some(id),
        ensures
            final(self).wf(),
            final(self).drained_life() == old(self).drained_life(),
            final(self).spec_host_type() == old(self).spec_host_type(),
            old(self).last_epoch() is Some ==> final(self).last_epoch() is Some,
            (old(self).last_epoch() matches Some(l) && spec_sequence_greater_than(l, id)) ==> *final(self) == *old(self),
            !(old(self).last_epoch() matches Some(l) && spec_sequence_greater_than(l, id)) ==> ({
                let b1 = old(self).buffered().insert(
                    spec_push_position(old(self).buffered(), id, old(self).buffered().len() as int),
                    (id, msg),
                );
                &&& final(self).buffered() == spec_entity_rest(old(self).life().spawned, b1)
                &&& final(self).life().spawned == spec_entity_spawned_after(old(self).life().spawned, b1)
                &&& final(self).last_epoch() == spec_entity_epoch_after(old(self).last_epoch(), old(self).life().spawned, b1)
                &&& final(self).model() == spec_entity_run(
                    old(self).spec_host_type(),
                    spec_entity_queued(old(self).model(), id, msg),
                ).0
                &&& final(self).outgoing() == old(self).outgoing() + spec_entity_run(
                    old(self).spec_host_type(),
                    spec_entity_queued(old(self).model(), id, msg),
                ).1
            }),
            final(self).pool().subset_of(old(self).pool().insert((id, msg))),
    {
        proof {
            broadcast use vstd::multiset::group_multiset_axioms;
            assert(old(self).pool().subset_of(old(self).pool().insert((id, msg))));
        }
        match self.last_epoch_id {
            Some(last_epoch_id) => {
                if sequence_less_than(id, last_epoch_id) {
                    return;
                }
            },
            None => {},
        }
        let ghost b0 = self.buffered_messages@;
        self.buffered_messages.push_back(id, msg);
        proof {
            let p = crate::ordered_ids::spec_push_position(b0, id, b0.len() as int);
            crate::ordered_ids::lemma_push_position(b0, id, b0.len() as int);
            let b1 = self.buffered_messages@;
            assert forall|j: int| 0 <= j < b1.len() implies spec_channel_message(#[trigger] b1[j].1) by {
                if j < p {
                    assert(b1[j] == b0[j]);
                } else if j > p {
                    assert(b1[j] == b0[j - 1]);
                }
            }
            broadcast use vstd::multiset::group_multiset_axioms;
            vstd::seq_lib::to_multiset_insert(b0, p, (id, msg));
            let cm = spec_components_pool(self.component_channels@);
            let am = self.auth_channel.pool();
            let om = spec_tag(self.out_ids@, self.outgoing_messages@).to_multiset();
            assert(self.pool() == b0.to_multiset().insert((id, msg)).add(cm).add(am).add(om));
            assert(old(self).pool() == b0.to_multiset().add(cm).add(am).add(om));
            assert(self.pool() =~= old(self).pool().insert((id, msg)));
        }
        let ghost mid = self.pool();
        proof {
            assert(self.model() == spec_entity_queued(old(self).model(), id, msg));
        }
        self.process_messages();
        proof {
            lemma_pool_sub_trans(self.pool(), mid, old(self).pool().insert((id, msg)));
        }
    }

    /// Moves what was handed out, addressed to `entity`, to the end of
    /// `outgoing_events`. The messages moved are legal one after the other,
    /// from what the previous drain left the entity as, to what it is now.
    pub fn drain_messages_into<E: Copy + Eq>(&mut self, entity: E, outgoing_events: &mut Vec<EntityMessage<E>>)
        requires
            old(self).wf(),
        ensures
            final(self).wf(),
            final(outgoing_events)@ == old(outgoing_events)@ + old(self).outgoing().map_values(
                |m: EntityMessage<()>| spec_message_retarget(m, entity),
            ),
            spec_sync_replay(old(self).spec_host_type(), old(self).drained_life(), old(self).outgoing()) == Some(
                old(self).life(),
            ),
            final(self).outgoing() == Seq::<EntityMessage<()>>::empty(),
            final(self).life() == old(self).life(),
            final(self).drained_life() == old(self).life(),
            final(self).spec_host_type() == old(self).spec_host_type(),
            final(self).last_epoch() == old(self).last_epoch(),
            final(self).buffered() == old(self).buffered(),
            final(self).model() == old(self).model(),
            final(self).kinds() == old(self).kinds(),
            final(self).out_ids() == Seq::<MessageIndex>::empty(),
            old(self).out_ids().len() == old(self).outgoing().len(),
            final(self).pool().add(spec_tag(old(self).out_ids(), old(self).outgoing()).to_multiset()) == old(self).pool(),
    {
        let ghost before = outgoing_events@;
        let ghost msgs = self.outgoing_messages@;
        let mut i: usize = 0;
        while i < self.outgoing_messages.len()
            invariant
                self.outgoing_messages@ == msgs,
                spec_sync_replay(self.host_type, self.drained_life@, msgs) == Some(self.life()),
                i <= msgs.len(),
                outgoing_events@ == before + msgs.take(i as int).map_values(
                    |m: EntityMessage<()>| spec_message_retarget(m, entity),
                ),
            decreases msgs.len() - i,
        {
            let m = self.outgoing_messages[i];
            proof {
                lemma_sync_replay_kinds(self.host_type, self.drained_life@, msgs, i as int);
            }
            outgoing_events.push(m.with_entity(entity));
            proof {
                assert(msgs.take(i + 1) =~= msgs.take(i as int).push(m));
                assert(msgs.take(i + 1).map_values(|m: EntityMessage<()>| spec_message_retarget(m, entity))
                    =~= msgs.take(i as int).map_values(|m: EntityMessage<()>| spec_message_retarget(m, entity)).push(
                    spec_message_retarget(m, entity),
                ));
            }
            i += 1;
        }
        proof {
            assert(msgs.take(msgs.len() as int) =~= msgs);
        }
        self.outgoing_messages.clear();
        proof {
            self.drained_life = Ghost(self.life());
            self.out_ids = Ghost(Seq::empty());
            assert(spec_sync_replay(self.host_type, self.drained_life@, self.outgoing_messages@) == Some(self.life())) by {
                assert(self.outgoing_messages@ =~= Seq::<EntityMessage<()>>::empty());
            }
            broadcast use vstd::multiset::group_multiset_axioms;
            assert(spec_tag(self.out_ids@, self.outgoing_messages@) =~= Seq::<Tagged>::empty());
            assert(Seq::<Tagged>::empty().to_multiset() =~= Multiset::<Tagged>::empty()) by {
                broadcast use vstd::seq_lib::group_to_multiset_ensures;
            }
            let bm = self.buffered_messages@.to_multiset();
            let cm = spec_components_pool(self.component_channels@);
            let am = self.auth_channel.pool();
            let om = spec_tag(old(self).out_ids@, old(self).outgoing_messages@).to_multiset();
            assert(self.pool() =~= bm.add(cm).add(am));
            assert(old(self).pool() == bm.add(cm).add(am).add(om));
        }
    }

    /// Bookkeeping for an entity this side already has, spawned and delegated.
    pub fn new_delegated(host_type: HostType) -> (r: EntityChannelReceiver)
        ensures
            r.wf(),
            r.spec_host_type() == host_type,
            r.life() == (SyncLife { spawned: true, inserted: Set::empty(), auth: EntityAuthChannelState::Delegated }),
            r.drained_life() == r.life(),
            r.outgoing() == Seq::<EntityMessage<()>>::empty(),
            r.kinds() == Set::<ComponentKind>::empty(),
            r.pool() == Multiset::<Tagged>::empty(),
    {
        let mut r = EntityChannelReceiver::new(host_type);
        proof {
            if r.component_channels@.len() > 0 {
                assert(r.kinds().contains(r.component_channels@[0].0));
            }
        }
        r.state = EntityChannelState::Spawned;
        r.auth_channel.set_state(EntityAuthChannelState::Delegated);
        proof {
            r.drained_life@ = r.life();
            assert(spec_sync_replay(r.host_type, r.drained_life@, r.outgoing_messages@) == Some(r.life())) by {
                assert(r.outgoing_messages@ =~= Seq::<EntityMessage<()>>::empty());
            }
        }
        r
    }

    /// Records that a spawned entity already has `component_kinds`.
    pub fn setup_delegated_components(&mut self, component_kinds: &Vec<ComponentKind>)
        requires
            old(self).wf(),
            old(self).life().spawned,
            old(self).outgoing() == Seq::<EntityMessage<()>>::empty(),
        ensures
            final(self).wf(),
            final(self).life().spawned,
            final(self).life().auth == old(self).life().auth,
            final(self).life().inserted == old(self).life().inserted.union(component_kinds@.to_set()),
            final(self).drained_life() == final(self).life(),
            final(self).outgoing() == Seq::<EntityMessage<()>>::empty(),
            final(self).spec_host_type() == old(self).spec_host_type(),
            final(self).pool().subset_of(old(self).pool()),
    {
        let ghost start = self.life().inserted;
        let mut i: usize = 0;
        while i < component_kinds.len()
            invariant
                self.state == EntityChannelState::Spawned,
                self.host_type == old(self).host_type,
                self.auth_channel == old(self).auth_channel,
                self.buffered_messages == old(self).buffered_messages,
                self.outgoing_messages@ == Seq::<EntityMessage<()>>::empty(),
                self.out_ids@ == old(self).out_ids@,
                self.out_ids@.len() == 0,
                spec_components_pool(self.component_channels@).subset_of(
                    spec_components_pool(old(self).component_channels@),
                ),
                spec_unique_kinds(self.component_channels@),
                forall|j: int| 0 <= j < self.component_channels@.len() ==> (#[trigger] self.component_channels@[j]).1.wf()
                    && self.component_channels@[j].1.outgoing() == Seq::<EntityMessageType>::empty(),
                i <= component_kinds@.len(),
                spec_drained_set(self.component_channels@) == start.union(component_kinds@.take(i as int).to_set()),
            decreases component_kinds@.len() - i,
        {
            let kind = component_kinds[i];
            let ghost before = self.component_channels@;
            match self.find_component(&kind) {
                Some(ci) => {
                    proof {
                        lemma_drained_set_update(before, ci as int, before[ci as int]);
                    }
                    let (k, _) = self.component_channels.remove(ci);
                    let channel = ComponentChannel::new_inserted();
                    self.component_channels.insert(ci, (k, channel));
                    proof {
                        assert(self.component_channels@ =~= before.update(ci as int, (k, channel)));
                        broadcast use vstd::multiset::group_multiset_axioms;
                        lemma_components_pool_update(before, ci as int, (k, channel));
                        assert(channel.pool(k) == Multiset::<Tagged>::empty());
                        let c_new = spec_components_pool(self.component_channels@);
                        let c_old = spec_components_pool(before);
                        let p_old = before[ci as int].1.pool(before[ci as int].0);
                        assert forall|v: Tagged| c_new.count(v) <= c_old.count(v) by {
                            assert(c_new.add(p_old).count(v) == c_old.add(channel.pool(k)).count(v));
                        }
                        lemma_pool_sub_trans(
                            spec_components_pool(self.component_channels@),
                            spec_components_pool(before),
                            spec_components_pool(old(self).component_channels@),
                        );
                        lemma_drained_set_update(before, ci as int, (k, channel));
                        assert forall|j: int| 0 <= j < self.component_channels@.len() implies (
                            #[trigger] self.component_channels@[j]).1.wf()
                            && self.component_channels@[j].1.outgoing() == Seq::<EntityMessageType>::empty() by {
                            if j != ci {
                                assert(self.component_channels@[j] == before[j]);
                            }
                        }
                    }
                },
                None => {
                    let channel = ComponentChannel::new_inserted();
                    self.component_channels.push((kind, channel));
                    proof {
                        let t = self.component_channels@;
                        assert(t =~= before.push((kind, channel)));
                        broadcast use vstd::multiset::group_multiset_axioms;
                        lemma_components_pool_push(before, (kind, channel));
                        assert(channel.pool(kind) == Multiset::<Tagged>::empty());
                        assert(spec_components_pool(t) =~= spec_components_pool(before));
                        assert forall|a: int, b: int| 0 <= a < t.len() && 0 <= b < t.len() && a != b implies #[trigger] t[a].0
                            != #[trigger] t[b].0 by {
                            if a < before.len() && b < before.len() {
                                assert(t[a] == before[a] && t[b] == before[b]);
                            } else if a < before.len() {
                                assert(t[a] == before[a]);
                            } else {
                                assert(t[b] == before[b]);
                            }
                        }
                        assert(spec_drained_set(t) =~= spec_drained_set(before).insert(kind)) by {
                            assert forall|k2: ComponentKind| spec_drained_set(t).contains(k2) <==> spec_drained_set(before).insert(kind).contains(k2) by {
                                if spec_drained_set(t).contains(k2) && k2 != kind {
                                    let j = choose|j: int| 0 <= j < t.len() && t[j].0 == k2 && #[trigger] t[j].1.drained_inserted();
                                    assert(j < before.len());
                                    assert(t[j] == before[j]);
                                }
                                if spec_drained_set(before).contains(k2) {
                                    let j = choose|j: int| 0 <= j < before.len() && before[j].0 == k2 && #[trigger] before[j].1.drained_inserted();
                                    assert(t[j] == before[j]);
                                }
                                if k2 == kind {
                                    assert(t[before.len() as int].1.drained_inserted());
                                }
                            }
                        }
                        assert forall|j: int| 0 <= j < t.len() implies (#[trigger] t[j]).1.wf()
                            && t[j].1.outgoing() == Seq::<EntityMessageType>::empty() by {
                            if j < before.len() {
                                assert(t[j] == before[j]);
                            }
                        }
                    }
                },
            }
            proof {
                assert(component_kinds@.take(i + 1) =~= component_kinds@.take(i as int).push(kind));
                component_kinds@.take(i as int).lemma_push_to_set_commute(kind);
                assert(spec_drained_set(self.component_channels@) =~= start.union(component_kinds@.take(i + 1).to_set()));
            }
            i += 1;
        }
        proof {
            broadcast use vstd::multiset::group_multiset_axioms;
            assert(component_kinds@.take(component_kinds@.len() as int) =~= component_kinds@);
            let bm = self.buffered_messages@.to_multiset();
            let am = self.auth_channel.pool();
            let om = spec_tag(self.out_ids@, self.outgoing_messages@).to_multiset();
            assert forall|v: Tagged| self.pool().count(v) <= old(self).pool().count(v) by {
                assert(spec_components_pool(self.component_channels@).count(v) <= spec_components_pool(
                    old(self).component_channels@,
                ).count(v));
            }
            self.drained_life = Ghost(self.life());
            assert(spec_sync_replay(self.host_type, self.drained_life@, self.outgoing_messages@) == Some(self.life())) by {
                assert(self.outgoing_messages@ =~= Seq::<EntityMessage<()>>::empty());
            }
        }
    }
}

} // verus!
