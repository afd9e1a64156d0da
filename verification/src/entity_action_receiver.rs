//! Turns an unordered stream of entity actions into a stream that is legal at
//! every step: an entity is spawned only when absent and despawned only when
//! present, a component is inserted only when absent and removed only when
//! present. Actions that come too early wait; actions older than the last
//! one that took effect are dropped.
use vstd::prelude::*;
use std::collections::{HashMap, VecDeque};

use crate::errors::EntityError;
use crate::ordered_ids::{OrderedIds, spec_push_position, spec_pop_until_including};
use crate::types::{ComponentKind, EntityKey, MessageIndex, lemma_keyed_insert, lemma_keyed_remove, spec_keyed};
use crate::wrapping_number::{sequence_less_than, spec_sequence_greater_than};

verus! {

broadcast use vstd::std_specs::hash::group_hash_axioms;

/// A change to one entity of the replicated world.
#[derive(Clone, PartialEq, Eq, Debug)]
pub enum EntityAction<E> {
    SpawnEntity(E, Vec<ComponentKind>),
    DespawnEntity(E),
    InsertComponent(E, ComponentKind),
    RemoveComponent(E, ComponentKind),
    Noop,
}

/// The entity an action is about; `Noop` has none.
pub open spec fn spec_action_entity<E>(a: EntityAction<E>) -> Option<E> {
    match a {
        EntityAction::SpawnEntity(e, _) => Some(e),
        EntityAction::DespawnEntity(e) => Some(e),
        EntityAction::InsertComponent(e, _) => Some(e),
        EntityAction::RemoveComponent(e, _) => Some(e),
        EntityAction::Noop => None,
    }
}

impl<E: Copy> EntityAction<E> {
    /// The entity the action is about.
    pub fn entity(&self) -> (r: Option<E>)
        ensures
            r == spec_action_entity(*self),
    {
        match self {
            EntityAction::SpawnEntity(e, _) => Some(*e),
            EntityAction::DespawnEntity(e) => Some(*e),
            EntityAction::InsertComponent(e, _) => Some(*e),
            EntityAction::RemoveComponent(e, _) => Some(*e),
            EntityAction::Noop => None,
        }
    }
}

/// What the receiving world knows of one entity: whether it exists, and
/// which of its components are present.
pub struct LifeState {
    pub spawned: bool,
    pub inserted: Set<ComponentKind>,
}

/// The state after one action, or `None` where the action is not legal there.
pub open spec fn spec_step<E>(s: LifeState, a: EntityAction<E>) -> Option<LifeState> {
    match a {
        EntityAction::SpawnEntity(_, _) => if !s.spawned {
            Some(LifeState { spawned: true, inserted: s.inserted })
        } else {
            None
        },
        EntityAction::DespawnEntity(_) => if s.spawned {
            Some(LifeState { spawned: false, inserted: Set::empty() })
        } else {
            None
        },
        EntityAction::InsertComponent(_, k) => if !s.inserted.contains(k) {
            Some(LifeState { spawned: s.spawned, inserted: s.inserted.insert(k) })
        } else {
            None
        },
        EntityAction::RemoveComponent(_, k) => if s.inserted.contains(k) {
            Some(LifeState { spawned: s.spawned, inserted: s.inserted.remove(k) })
        } else {
            None
        },
        EntityAction::Noop => None,
    }
}

/// The state after a sequence of actions, each legal where it is applied;
/// `None` where one of them is not.
pub open spec fn spec_replay<E>(s: LifeState, actions: Seq<EntityAction<E>>) -> Option<LifeState>
    decreases actions.len(),
{
    if actions.len() == 0 {
        Some(s)
    } else {
        match spec_step(s, actions[0]) {
            Some(t) => spec_replay(t, actions.drop_first()),
            None => None,
        }
    }
}

/// Replaying two sequences one after the other is replaying their concatenation.
pub proof fn lemma_replay_append<E>(s: LifeState, a: Seq<EntityAction<E>>, b: Seq<EntityAction<E>>)
    ensures
        spec_replay(s, a + b) == (match spec_replay(s, a) {
            Some(t) => spec_replay(t, b),
            None => None,
        }),
    decreases a.len(),
{
    if a.len() == 0 {
        assert(a + b =~= b);
    } else {
        assert((a + b).drop_first() =~= a.drop_first() + b);
        match spec_step(s, a[0]) {
            Some(t) => lemma_replay_append(t, a.drop_first(), b),
            None => {},
        }
    }
}

/// One legal action replays to the state it steps to.
pub proof fn lemma_replay_single<E>(s: LifeState, a: EntityAction<E>)
    ensures
        spec_replay(s, seq![a]) == spec_step(s, a),
{
    reveal_with_fuel(spec_replay, 2);
    assert(seq![a].drop_first() =~= Seq::<EntityAction<E>>::empty());
}

/// The bookkeeping of one component of one entity.
pub struct ComponentChannel {
    pub inserted: bool,
    pub last_canonical_index: Option<MessageIndex>,
    pub waiting_inserts: OrderedIds<()>,
    pub waiting_removes: OrderedIds<()>,
}

/// `index` is older than the last index that took effect.
pub open spec fn spec_is_stale(last: Option<MessageIndex>, index: MessageIndex) -> bool {
    match last {
        Some(l) => spec_sequence_greater_than(l, index),
        None => false,
    }
}

/// How many actions of one component are waiting.
pub open spec fn spec_component_waiting(c: ComponentChannel) -> nat {
    c.waiting_inserts@.len() + c.waiting_removes@.len()
}

fn is_stale(last: Option<MessageIndex>, index: MessageIndex) -> (r: bool)
    ensures
        r == spec_is_stale(last, index),
{
    match last {
        Some(l) => sequence_less_than(index, l),
        None => false,
    }
}

impl ComponentChannel {
    pub fn new(canonical_index: Option<MessageIndex>) -> (r: ComponentChannel)
        ensures
            !r.inserted,
            r.last_canonical_index == canonical_index,
            r.waiting_inserts@.len() == 0,
            r.waiting_removes@.len() == 0,
    {
        ComponentChannel {
            inserted: false,
            waiting_inserts: OrderedIds::new(),
            waiting_removes: OrderedIds::new(),
            last_canonical_index: canonical_index,
        }
    }

    /// Drops the waiting inserts and removes at the front that are no newer
    /// than `index`, and makes `index` the last index that took effect.
    pub fn receive_canonical(&mut self, index: MessageIndex)
        ensures
            final(self).inserted == old(self).inserted,
            final(self).last_canonical_index == Some(index),
            final(self).waiting_inserts@ == spec_pop_until_including(old(self).waiting_inserts@, index),
            final(self).waiting_removes@ == spec_pop_until_including(old(self).waiting_removes@, index),
            spec_component_waiting(*final(self)) <= spec_component_waiting(*old(self)),
    {
        self.waiting_inserts.pop_front_until_and_including(index);
        self.waiting_removes.pop_front_until_and_including(index);
        self.last_canonical_index = Some(index);
    }
}

/// Total number of component actions waiting, over all components.
pub open spec fn spec_total_waiting(s: Seq<(ComponentKind, ComponentChannel)>) -> nat
    decreases s.len(),
{
    if s.len() == 0 {
        0
    } else {
        spec_total_waiting(s.drop_last()) + spec_component_waiting(s.last().1)
    }
}

/// Replacing one component's bookkeeping changes the total by the difference.
pub proof fn lemma_total_waiting_update(
    s: Seq<(ComponentKind, ComponentChannel)>,
    i: int,
    x: (ComponentKind, ComponentChannel),
)
    requires
        0 <= i < s.len(),
    ensures
        spec_total_waiting(s.update(i, x)) + spec_component_waiting(s[i].1) == spec_total_waiting(s)
            + spec_component_waiting(x.1),
    decreases s.len(),
{
    let t = s.update(i, x);
    if i == s.len() - 1 {
        assert(t.drop_last() =~= s.drop_last());
    } else {
        assert(t.drop_last() =~= s.drop_last().update(i, x));
        lemma_total_waiting_update(s.drop_last(), i, x);
    }
}

/// Adding a component with nothing waiting leaves the total as it was.
pub proof fn lemma_total_waiting_push(s: Seq<(ComponentKind, ComponentChannel)>, x: (ComponentKind, ComponentChannel))
    requires
        spec_component_waiting(x.1) == 0,
    ensures
        spec_total_waiting(s.push(x)) == spec_total_waiting(s),
{
    assert(s.push(x).drop_last() =~= s);
}

/// The components present, by the bookkeeping.
pub open spec fn spec_inserted_set(s: Seq<(ComponentKind, ComponentChannel)>) -> Set<ComponentKind> {
    Set::new(|k: ComponentKind| exists|i: int| 0 <= i < s.len() && s[i].0 == k && #[trigger] s[i].1.inserted)
}

/// No component is listed twice.
pub open spec fn spec_unique_kinds(s: Seq<(ComponentKind, ComponentChannel)>) -> bool {
    forall|i: int, j: int| 0 <= i < s.len() && 0 <= j < s.len() && i != j ==> #[trigger] s[i].0 != #[trigger] s[j].0
}

/// Setting one component's presence changes the present set by that component alone.
pub proof fn lemma_inserted_set_update(
    s: Seq<(ComponentKind, ComponentChannel)>,
    i: int,
    x: (ComponentKind, ComponentChannel),
)
    requires
        0 <= i < s.len(),
        spec_unique_kinds(s),
        x.0 == s[i].0,
    ensures
        spec_unique_kinds(s.update(i, x)),
        spec_inserted_set(s.update(i, x)) == (if x.1.inserted {
            spec_inserted_set(s).insert(x.0)
        } else {
            spec_inserted_set(s).remove(x.0)
        }),
{
    let t = s.update(i, x);
    let a = spec_inserted_set(t);
    let b = if x.1.inserted {
        spec_inserted_set(s).insert(x.0)
    } else {
        spec_inserted_set(s).remove(x.0)
    };
    assert forall|k: ComponentKind| a.contains(k) <==> b.contains(k) by {
        if k == x.0 {
            if x.1.inserted {
                assert(t[i].1.inserted);
            } else {
                if a.contains(k) {
                    let j = choose|j: int| 0 <= j < t.len() && t[j].0 == k && #[trigger] t[j].1.inserted;
                    assert(j != i);
                    assert(s[j].0 == s[i].0);
                }
            }
        } else {
            if a.contains(k) {
                let j = choose|j: int| 0 <= j < t.len() && t[j].0 == k && #[trigger] t[j].1.inserted;
                assert(s[j] == t[j]);
            }
            if spec_inserted_set(s).contains(k) {
                let j = choose|j: int| 0 <= j < s.len() && s[j].0 == k && #[trigger] s[j].1.inserted;
                assert(s[j] == t[j]);
            }
        }
    }
    assert(a =~= b);
}

/// Replacing one component's bookkeeping with the same presence keeps the present set.
pub proof fn lemma_inserted_set_same(
    s: Seq<(ComponentKind, ComponentChannel)>,
    i: int,
    x: (ComponentKind, ComponentChannel),
)
    requires
        0 <= i < s.len(),
        spec_unique_kinds(s),
        x.0 == s[i].0,
        x.1.inserted == s[i].1.inserted,
    ensures
        spec_unique_kinds(s.update(i, x)),
        spec_inserted_set(s.update(i, x)) == spec_inserted_set(s),
{
    lemma_inserted_set_update(s, i, x);
    if x.1.inserted {
        assert(spec_inserted_set(s).contains(x.0)) by {
            assert(s[i].1.inserted);
        }
        assert(spec_inserted_set(s).insert(x.0) =~= spec_inserted_set(s));
    } else {
        assert(!spec_inserted_set(s).contains(x.0)) by {
            if spec_inserted_set(s).contains(x.0) {
                let j = choose|j: int| 0 <= j < s.len() && s[j].0 == x.0 && #[trigger] s[j].1.inserted;
                assert(j == i);
            }
        }
        assert(spec_inserted_set(s).remove(x.0) =~= spec_inserted_set(s));
    }
}


/// `after` is `before` with more actions appended.
pub open spec fn spec_extends<E>(before: Seq<EntityAction<E>>, after: Seq<EntityAction<E>>) -> bool {
    before.len() <= after.len() && after.subrange(0, before.len() as int) == before
}

/// The actions appended to `before` to give `after`.
pub open spec fn spec_appended<E>(before: Seq<EntityAction<E>>, after: Seq<EntityAction<E>>) -> Seq<EntityAction<E>> {
    after.subrange(before.len() as int, after.len() as int)
}

/// Every action in `s` is about `entity`.
pub open spec fn spec_all_about<E>(s: Seq<EntityAction<E>>, entity: E) -> bool {
    forall|i: int| 0 <= i < s.len() ==> spec_action_entity(#[trigger] s[i]) == Some(entity)
}

/// `out` grew by actions about `entity` that, applied one by one, take the
/// world from `from` to `to`, each of them legal where it is applied.
pub open spec fn spec_legal_run<E>(
    entity: E,
    from: LifeState,
    to: LifeState,
    before: Seq<EntityAction<E>>,
    after: Seq<EntityAction<E>>,
) -> bool {
    &&& spec_extends(before, after)
    &&& spec_all_about(spec_appended(before, after), entity)
    &&& spec_replay(from, spec_appended(before, after)) == Some(to)
}

/// Two legal runs one after the other make one.
pub proof fn lemma_legal_run_trans<E>(
    entity: E,
    a: LifeState,
    b: LifeState,
    c: LifeState,
    s1: Seq<EntityAction<E>>,
    s2: Seq<EntityAction<E>>,
    s3: Seq<EntityAction<E>>,
)
    requires
        spec_legal_run(entity, a, b, s1, s2),
        spec_legal_run(entity, b, c, s2, s3),
    ensures
        spec_legal_run(entity, a, c, s1, s3),
{
    let x = spec_appended(s1, s2);
    let y = spec_appended(s2, s3);
    assert(spec_appended(s1, s3) =~= x + y);
    assert(s3.subrange(0, s1.len() as int) =~= s2.subrange(0, s1.len() as int));
    lemma_replay_append(a, x, y);
}

/// Doing nothing is a legal run.
pub proof fn lemma_legal_run_refl<E>(entity: E, a: LifeState, s: Seq<EntityAction<E>>)
    ensures
        spec_legal_run(entity, a, a, s, s),
{
    assert(spec_appended(s, s) =~= Seq::<EntityAction<E>>::empty());
    assert(s.subrange(0, s.len() as int) =~= s);
}

/// Appending one action legal in `a` is a legal run to the state it steps to.
pub proof fn lemma_legal_run_push<E>(entity: E, a: LifeState, s: Seq<EntityAction<E>>, act: EntityAction<E>)
    requires
        spec_step(a, act) is Some,
        spec_action_entity(act) == Some(entity),
    ensures
        spec_legal_run(entity, a, spec_step(a, act)->0, s, s.push(act)),
{
    assert(spec_appended(s, s.push(act)) =~= seq![act]);
    assert(s.push(act).subrange(0, s.len() as int) =~= s);
    lemma_replay_single(a, act);
}

/// `component` is listed.
pub open spec fn spec_has_kind(s: Seq<(ComponentKind, ComponentChannel)>, component: ComponentKind) -> bool {
    exists|c: int| 0 <= c < s.len() && #[trigger] s[c].0 == component
}

/// A listed component is in the present set exactly when its bookkeeping says so.
pub proof fn lemma_inserted_set_member(s: Seq<(ComponentKind, ComponentChannel)>, i: int)
    requires
        0 <= i < s.len(),
        spec_unique_kinds(s),
    ensures
        spec_inserted_set(s).contains(s[i].0) == s[i].1.inserted,
{
    if spec_inserted_set(s).contains(s[i].0) {
        let j = choose|j: int| 0 <= j < s.len() && s[j].0 == s[i].0 && #[trigger] s[j].1.inserted;
        assert(j == i);
    }
    if s[i].1.inserted {
        assert(spec_inserted_set(s).contains(s[i].0));
    }
}

/// The bookkeeping of one entity: its lifecycle, its components, and the
/// actions that arrived too early.
pub struct EntityChannel<E> {
    entity: E,
    last_canonical_index: Option<MessageIndex>,
    spawned: bool,
    components: Vec<(ComponentKind, ComponentChannel)>,
    waiting_spawns: OrderedIds<Vec<ComponentKind>>,
    waiting_despawns: OrderedIds<()>,
}

impl<E: Copy> EntityChannel<E> {
    pub closed spec fn spec_entity(&self) -> E {
        self.entity
    }

    /// What the actions handed out so far say of the entity.
    pub closed spec fn life(&self) -> LifeState {
        LifeState { spawned: self.spawned, inserted: spec_inserted_set(self.components@) }
    }

    pub closed spec fn last_index(&self) -> Option<MessageIndex> {
        self.last_canonical_index
    }

    /// The last index that took effect for `component`.
    pub closed spec fn component_last_index(&self, component: ComponentKind) -> Option<MessageIndex> {
        if exists|i: int| 0 <= i < self.components@.len() && #[trigger] self.components@[i].0 == component {
            let i = choose|i: int| 0 <= i < self.components@.len() && #[trigger] self.components@[i].0 == component;
            self.components@[i].1.last_canonical_index
        } else {
            self.last_canonical_index
        }
    }

    pub closed spec fn component_list(&self) -> Seq<(ComponentKind, ComponentChannel)> {
        self.components@
    }

    pub closed spec fn spawn_queue(&self) -> Seq<(MessageIndex, Vec<ComponentKind>)> {
        self.waiting_spawns@
    }

    pub closed spec fn despawn_queue(&self) -> Seq<(MessageIndex, ())> {
        self.waiting_despawns@
    }

    /// Spawns and despawns waiting.
    pub closed spec fn outer_waiting(&self) -> nat {
        self.waiting_spawns@.len() + self.waiting_despawns@.len()
    }

    /// Component inserts and removes waiting.
    pub closed spec fn inner_waiting(&self) -> nat {
        spec_total_waiting(self.components@)
    }

    pub closed spec fn wf(&self) -> bool {
        spec_unique_kinds(self.components@)
    }

    /// A fresh entity, not yet spawned, with nothing waiting.
    pub fn new(entity: E) -> (r: EntityChannel<E>)
        ensures
            r.wf(),
            r.spec_entity() == entity,
            r.life() == (LifeState { spawned: false, inserted: Set::empty() }),
            r.last_index() is None,
            forall|k: ComponentKind| #[trigger] r.component_last_index(k) is None,
            r.outer_waiting() == 0,
            r.inner_waiting() == 0,
    {
        let r = EntityChannel {
            entity,
            spawned: false,
            components: Vec::new(),
            waiting_spawns: OrderedIds::new(),
            waiting_despawns: OrderedIds::new(),
            last_canonical_index: None,
        };
        assert(spec_inserted_set(r.components@) =~= Set::empty());
        r
    }

    /// The position of `component` in the component list, if it is there.
    fn find_component(&self, component: ComponentKind) -> (r: Option<usize>)
        ensures
            match r {
                Some(i) => i < self.components@.len() && self.components@[i as int].0 == component,
                None => forall|i: int| 0 <= i < self.components@.len() ==> #[trigger] self.components@[i].0 != component,
            },
    {
        let mut i: usize = 0;
        while i < self.components.len()
            invariant
                i <= self.components@.len(),
                forall|j: int| 0 <= j < i ==> #[trigger] self.components@[j].0 != component,
            decreases self.components@.len() - i,
        {
            if self.components[i].0 == component {
                return Some(i);
            }
            i += 1;
        }
        None
    }

    /// The position of `component`, added with nothing waiting if it was not there.
    fn ensure_component(&mut self, component: ComponentKind) -> (r: usize)
        requires
            old(self).wf(),
        ensures
            final(self).wf(),
            r < final(self).components@.len(),
            final(self).components@[r as int].0 == component,
            final(self).entity == old(self).entity,
            final(self).spawned == old(self).spawned,
            final(self).last_canonical_index == old(self).last_canonical_index,
            final(self).waiting_spawns == old(self).waiting_spawns,
            final(self).waiting_despawns == old(self).waiting_despawns,
            final(self).life() == old(self).life(),
            final(self).inner_waiting() == old(self).inner_waiting(),
            final(self).component_last_index(component) == old(self).component_last_index(component),
            final(self).components@[r as int].1.last_canonical_index == final(self).component_last_index(component),
            forall|k: ComponentKind| k != component ==> final(self).component_last_index(k) == old(self).component_last_index(k),
            old(self).components@.len() <= final(self).components@.len(),
            forall|c: int| 0 <= c < old(self).components@.len() ==> #[trigger] final(self).components@[c] == old(self).components@[c],
    {
        match self.find_component(component) {
            Some(i) => {
                assert(self.components@[i as int].0 == component);
                i
            },
            None => {
                let ghost s = self.components@;
                let ch = ComponentChannel::new(self.last_canonical_index);
                self.components.push((component, ch));
                proof {
                    let t = self.components@;
                    lemma_total_waiting_push(s, (component, ch));
                    assert(spec_inserted_set(t) =~= spec_inserted_set(s)) by {
                        assert forall|k: ComponentKind| spec_inserted_set(t).contains(k) implies spec_inserted_set(s).contains(k) by {
                            let j = choose|j: int| 0 <= j < t.len() && t[j].0 == k && #[trigger] t[j].1.inserted;
                            assert(j < s.len());
                            assert(s[j] == t[j]);
                        }
                        assert forall|k: ComponentKind| spec_inserted_set(s).contains(k) implies spec_inserted_set(t).contains(k) by {
                            let j = choose|j: int| 0 <= j < s.len() && s[j].0 == k && #[trigger] s[j].1.inserted;
                            assert(s[j] == t[j]);
                        }
                    }
                    let n = s.len() as int;
                    assert(t[n].0 == component);
                    assert forall|k: ComponentKind| k != component implies self.component_last_index(k) == old(self).component_last_index(k) by {
                        if exists|i: int| 0 <= i < s.len() && #[trigger] s[i].0 == k {
                            let i = choose|i: int| 0 <= i < s.len() && #[trigger] s[i].0 == k;
                            assert(t[i] == s[i]);
                            let i2 = choose|i: int| 0 <= i < t.len() && #[trigger] t[i].0 == k;
                            if i2 != i {
                                assert(i2 < s.len());
                                assert(s[i2] == t[i2]);
                            }
                        } else {
                            assert forall|i: int| 0 <= i < t.len() implies #[trigger] t[i].0 != k by {
                                if i < s.len() {
                                    assert(s[i] == t[i]);
                                }
                            }
                        }
                    }
                    let i2 = choose|i: int| 0 <= i < t.len() && #[trigger] t[i].0 == component;
                    assert(i2 == n) by {
                        if i2 != n {
                            assert(s[i2] == t[i2]);
                        }
                    }
                }
                self.components.len() - 1
            },
        }
    }

    /// Drops every waiting action no newer than `index`, from the front of
    /// each queue, and makes `index` the last index that took effect,
    /// for the entity and for each of its components.
    pub fn receive_canonical(&mut self, index: MessageIndex)
        requires
            old(self).wf(),
        ensures
            final(self).wf(),
            final(self).spec_entity() == old(self).spec_entity(),
                        final(self).life() == old(self).life(),
            final(self).last_index() == Some(index),
            final(self).spawn_queue() == spec_pop_until_including(old(self).spawn_queue(), index),
            final(self).despawn_queue() == spec_pop_until_including(old(self).despawn_queue(), index),
            final(self).component_list().len() == old(self).component_list().len(),
            forall|i: int| 0 <= i < old(self).component_list().len() ==> {
                let a = #[trigger] old(self).component_list()[i];
                let b = final(self).component_list()[i];
                &&& b.0 == a.0
                &&& b.1.inserted == a.1.inserted
                &&& b.1.last_canonical_index == Some(index)
                &&& b.1.waiting_inserts@ == spec_pop_until_including(a.1.waiting_inserts@, index)
                &&& b.1.waiting_removes@ == spec_pop_until_including(a.1.waiting_removes@, index)
            },
            final(self).outer_waiting() <= old(self).outer_waiting(),
            final(self).inner_waiting() <= old(self).inner_waiting(),
    {
        self.waiting_spawns.pop_front_until_and_including(index);
        self.waiting_despawns.pop_front_until_and_including(index);
        let ghost s0 = self.components@;
        let ghost pre = *self;
        let mut i: usize = 0;
        while i < self.components.len()
            invariant
                self.entity == pre.entity,
                self.spawned == pre.spawned,
                self.waiting_spawns == pre.waiting_spawns,
                self.waiting_despawns == pre.waiting_despawns,
                self.components@.len() == s0.len(),
                i <= s0.len(),
                spec_unique_kinds(self.components@),
                spec_inserted_set(self.components@) == spec_inserted_set(s0),
                spec_total_waiting(self.components@) <= spec_total_waiting(s0),
                forall|j: int| i <= j < s0.len() ==> #[trigger] self.components@[j] == s0[j],
                forall|j: int| 0 <= j < i ==> {
                    let a = #[trigger] s0[j];
                    let b = self.components@[j];
                    &&& b.0 == a.0
                    &&& b.1.inserted == a.1.inserted
                    &&& b.1.last_canonical_index == Some(index)
                    &&& b.1.waiting_inserts@ == spec_pop_until_including(a.1.waiting_inserts@, index)
                    &&& b.1.waiting_removes@ == spec_pop_until_including(a.1.waiting_removes@, index)
                },
            decreases s0.len() - i,
        {
            let ghost before = self.components@;
            let (kind, mut channel) = self.components.remove(i);
            channel.receive_canonical(index);
            self.components.insert(i, (kind, channel));
            proof {
                assert(self.components@ =~= before.update(i as int, (kind, channel)));
                lemma_inserted_set_same(before, i as int, (kind, channel));
                lemma_total_waiting_update(before, i as int, (kind, channel));
            }
            i += 1;
        }
        self.last_canonical_index = Some(index);
    }

    /// Inserts `component`, unless the message is older than the last one that
    /// took effect for the entity or for the component. A component already
    /// present waits for its remove; otherwise the insert is handed out and a
    /// waiting remove of the component, if any, is tried next.
    pub fn try_receive_insert_component_action(
        &mut self,
        index: MessageIndex,
        component: ComponentKind,
        outgoing_actions: &mut Vec<EntityAction<E>>,
    ) -> (r: Result<(), EntityError>)
        requires
            old(self).wf(),
        ensures
            r is Ok,
            final(self).wf(),
            final(self).spec_entity() == old(self).spec_entity(),
            final(self).life().spawned == old(self).life().spawned,
            final(self).last_index() == old(self).last_index(),
            final(self).spawn_queue() == old(self).spawn_queue(),
            final(self).despawn_queue() == old(self).despawn_queue(),
            spec_legal_run(
                old(self).spec_entity(),
                old(self).life(),
                final(self).life(),
                old(outgoing_actions)@,
                final(outgoing_actions)@,
            ),
            spec_is_stale(old(self).last_index(), index) ==> *final(self) == *old(self)
                && final(outgoing_actions)@ == old(outgoing_actions)@,
            !spec_is_stale(old(self).last_index(), index) && spec_is_stale(
                old(self).component_last_index(component),
                index,
            ) ==> final(outgoing_actions)@ == old(outgoing_actions)@,
            !spec_is_stale(old(self).last_index(), index) && !spec_is_stale(
                old(self).component_last_index(component),
                index,
            ) ==> if !old(self).life().inserted.contains(component) {
                &&& final(outgoing_actions)@.len() > old(outgoing_actions)@.len()
                &&& final(outgoing_actions)@[old(outgoing_actions)@.len() as int]
                    == EntityAction::InsertComponent(old(self).spec_entity(), component)
            } else {
                final(outgoing_actions)@ == old(outgoing_actions)@
            },
        decreases old(self).inner_waiting(),
    {
        if is_stale(self.last_canonical_index, index) {
            proof {
                lemma_legal_run_refl(self.entity, self.life(), outgoing_actions@);
            }
            return Ok(());
        }
        let ci = self.ensure_component(component);
        let ghost s1 = self.components@;
        let ghost out0 = outgoing_actions@;
        let ghost life0 = self.life();
        proof {
            lemma_inserted_set_member(s1, ci as int);
        }
        let (kind, mut channel) = self.components.remove(ci);
        if is_stale(channel.last_canonical_index, index) {
            self.components.insert(ci, (kind, channel));
            proof {
                assert(self.components@ =~= s1);
                lemma_legal_run_refl(self.entity, self.life(), outgoing_actions@);
            }
            return Ok(());
        }
        if !channel.inserted {
            channel.inserted = true;
            let action = EntityAction::InsertComponent(self.entity, component);
            outgoing_actions.push(action);
            channel.receive_canonical(index);
            let next = channel.waiting_removes.pop_front();
            self.components.insert(ci, (kind, channel));
            proof {
                assert(self.components@ =~= s1.update(ci as int, (kind, channel)));
                lemma_inserted_set_update(s1, ci as int, (kind, channel));
                lemma_total_waiting_update(s1, ci as int, (kind, channel));
                lemma_legal_run_push(self.entity, life0, out0, action);
                assert(spec_step(life0, action)->0 == self.life());
            }
            match next {
                Some((next_index, _)) => {
                    let ghost life1 = self.life();
                    let ghost out1 = outgoing_actions@;
                    let _ = self.try_receive_remove_component_action(next_index, component, outgoing_actions);
                    proof {
                        lemma_legal_run_trans(
                            self.entity,
                            life0,
                            life1,
                            self.life(),
                            out0,
                            out1,
                            outgoing_actions@,
                        );
                        assert(out1.len() == out0.len() + 1);
                        assert(outgoing_actions@.subrange(0, out1.len() as int) == out1);
                        assert(outgoing_actions@[out0.len() as int] == out1[out0.len() as int]);
                    }
                },
                None => {},
            }
        } else {
            channel.waiting_inserts.push_back(index, ());
            self.components.insert(ci, (kind, channel));
            proof {
                assert(self.components@ =~= s1.update(ci as int, (kind, channel)));
                lemma_inserted_set_same(s1, ci as int, (kind, channel));
                lemma_legal_run_refl(self.entity, self.life(), outgoing_actions@);
            }
        }
        Ok(())
    }

    /// Removes `component`, unless the message is older than the last one that
    /// took effect for the entity or for the component. A component not
    /// present waits for its insert; otherwise the remove is handed out and a
    /// waiting insert of the component, if any, is tried next.
    pub fn try_receive_remove_component_action(
        &mut self,
        index: MessageIndex,
        component: ComponentKind,
        outgoing_actions: &mut Vec<EntityAction<E>>,
    ) -> (r: Result<(), EntityError>)
        requires
            old(self).wf(),
        ensures
            r is Ok,
            final(self).wf(),
            final(self).spec_entity() == old(self).spec_entity(),
            final(self).life().spawned == old(self).life().spawned,
            final(self).last_index() == old(self).last_index(),
            final(self).spawn_queue() == old(self).spawn_queue(),
            final(self).despawn_queue() == old(self).despawn_queue(),
            spec_legal_run(
                old(self).spec_entity(),
                old(self).life(),
                final(self).life(),
                old(outgoing_actions)@,
                final(outgoing_actions)@,
            ),
            spec_is_stale(old(self).last_index(), index) ==> *final(self) == *old(self)
                && final(outgoing_actions)@ == old(outgoing_actions)@,
            !spec_is_stale(old(self).last_index(), index) && spec_is_stale(
                old(self).component_last_index(component),
                index,
            ) ==> final(outgoing_actions)@ == old(outgoing_actions)@,
            !spec_is_stale(old(self).last_index(), index) && !spec_is_stale(
                old(self).component_last_index(component),
                index,
            ) ==> if old(self).life().inserted.contains(component) {
                &&& final(outgoing_actions)@.len() > old(outgoing_actions)@.len()
                &&& final(outgoing_actions)@[old(outgoing_actions)@.len() as int]
                    == EntityAction::RemoveComponent(old(self).spec_entity(), component)
            } else {
                final(outgoing_actions)@ == old(outgoing_actions)@
            },
        decreases old(self).inner_waiting(),
    {
        if is_stale(self.last_canonical_index, index) {
            proof {
                lemma_legal_run_refl(self.entity, self.life(), outgoing_actions@);
            }
            return Ok(());
        }
        let ci = self.ensure_component(component);
        let ghost s1 = self.components@;
        let ghost out0 = outgoing_actions@;
        let ghost life0 = self.life();
        proof {
            lemma_inserted_set_member(s1, ci as int);
        }
        let (kind, mut channel) = self.components.remove(ci);
        if is_stale(channel.last_canonical_index, index) {
            self.components.insert(ci, (kind, channel));
            proof {
                assert(self.components@ =~= s1);
                lemma_legal_run_refl(self.entity, self.life(), outgoing_actions@);
            }
            return Ok(());
        }
        if channel.inserted {
            channel.inserted = false;
            let action = EntityAction::RemoveComponent(self.entity, component);
            outgoing_actions.push(action);
            channel.receive_canonical(index);
            let next = channel.waiting_inserts.pop_front();
            self.components.insert(ci, (kind, channel));
            proof {
                assert(self.components@ =~= s1.update(ci as int, (kind, channel)));
                lemma_inserted_set_update(s1, ci as int, (kind, channel));
                lemma_total_waiting_update(s1, ci as int, (kind, channel));
                lemma_legal_run_push(self.entity, life0, out0, action);
                assert(spec_step(life0, action)->0 == self.life());
            }
            match next {
                Some((next_index, _)) => {
                    let ghost life1 = self.life();
                    let ghost out1 = outgoing_actions@;
                    let _ = self.try_receive_insert_component_action(next_index, component, outgoing_actions);
                    proof {
                        lemma_legal_run_trans(
                            self.entity,
                            life0,
                            life1,
                            self.life(),
                            out0,
                            out1,
                            outgoing_actions@,
                        );
                        assert(out1.len() == out0.len() + 1);
                        assert(outgoing_actions@.subrange(0, out1.len() as int) == out1);
                        assert(outgoing_actions@[out0.len() as int] == out1[out0.len() as int]);
                    }
                },
                None => {},
            }
        } else {
            channel.waiting_removes.push_back(index, ());
            self.components.insert(ci, (kind, channel));
            proof {
                assert(self.components@ =~= s1.update(ci as int, (kind, channel)));
                lemma_inserted_set_same(s1, ci as int, (kind, channel));
                lemma_legal_run_refl(self.entity, self.life(), outgoing_actions@);
            }
        }
        Ok(())
    }

    /// Marks every component as not present.
    fn clear_inserted(&mut self)
        requires
            old(self).wf(),
        ensures
            final(self).wf(),
            final(self).entity == old(self).entity,
            final(self).spawned == old(self).spawned,
            final(self).last_canonical_index == old(self).last_canonical_index,
            final(self).waiting_spawns == old(self).waiting_spawns,
            final(self).waiting_despawns == old(self).waiting_despawns,
            final(self).life().inserted == Set::<ComponentKind>::empty(),
    {
        let ghost s0 = self.components@;
        let ghost pre = *self;
        let mut i: usize = 0;
        while i < self.components.len()
            invariant
                self.entity == pre.entity,
                self.spawned == pre.spawned,
                self.last_canonical_index == pre.last_canonical_index,
                self.waiting_spawns == pre.waiting_spawns,
                self.waiting_despawns == pre.waiting_despawns,
                self.components@.len() == s0.len(),
                i <= s0.len(),
                spec_unique_kinds(self.components@),
                forall|j: int| 0 <= j < s0.len() ==> #[trigger] self.components@[j].0 == s0[j].0,
                forall|j: int| 0 <= j < i ==> !(#[trigger] self.components@[j]).1.inserted,
            decreases s0.len() - i,
        {
            let ghost before = self.components@;
            let (kind, mut channel) = self.components.remove(i);
            channel.inserted = false;
            self.components.insert(i, (kind, channel));
            proof {
                assert(self.components@ =~= before.update(i as int, (kind, channel)));
                lemma_inserted_set_update(before, i as int, (kind, channel));
            }
            i += 1;
        }
        proof {
            let t = self.components@;
            assert(spec_inserted_set(t) =~= Set::<ComponentKind>::empty()) by {
                assert forall|k: ComponentKind| !spec_inserted_set(t).contains(k) by {
                    if spec_inserted_set(t).contains(k) {
                        let j = choose|j: int| 0 <= j < t.len() && t[j].0 == k && #[trigger] t[j].1.inserted;
                        assert(!t[j].1.inserted);
                    }
                }
            }
        }
    }

    /// Despawns the entity, unless the message is older than the last spawn or
    /// despawn that took effect. An entity not spawned waits for its spawn;
    /// otherwise the despawn is handed out, every component becomes absent,
    /// and a waiting spawn, if any, is tried next.
    pub fn try_receive_despawn_entity_action(
        &mut self,
        index: MessageIndex,
        outgoing_actions: &mut Vec<EntityAction<E>>,
    ) -> (r: Result<(), EntityError>)
        requires
            old(self).wf(),
        ensures
            r is Ok,
            final(self).wf(),
            final(self).spec_entity() == old(self).spec_entity(),
            spec_legal_run(
                old(self).spec_entity(),
                old(self).life(),
                final(self).life(),
                old(outgoing_actions)@,
                final(outgoing_actions)@,
            ),
            old(self).last_index() is Some ==> final(self).last_index() is Some,
            spec_is_stale(old(self).last_index(), index) ==> *final(self) == *old(self)
                && final(outgoing_actions)@ == old(outgoing_actions)@,
            !spec_is_stale(old(self).last_index(), index) && !old(self).life().spawned ==> {
                &&& final(outgoing_actions)@ == old(outgoing_actions)@
                &&& final(self).despawn_queue() == old(self).despawn_queue().insert(
                    spec_push_position(old(self).despawn_queue(), index, old(self).despawn_queue().len() as int),
                    (index, ()),
                )
            },
            !spec_is_stale(old(self).last_index(), index) && old(self).life().spawned ==> {
                &&& final(outgoing_actions)@.len() > old(outgoing_actions)@.len()
                &&& final(outgoing_actions)@[old(outgoing_actions)@.len() as int]
                    == EntityAction::<E>::DespawnEntity(old(self).spec_entity())
                &&& final(self).last_index() is Some
            },
        decreases old(self).outer_waiting(),
    {
        if is_stale(self.last_canonical_index, index) {
            proof {
                lemma_legal_run_refl(self.entity, self.life(), outgoing_actions@);
            }
            return Ok(());
        }
        if self.spawned {
            let ghost life0 = self.life();
            let ghost out0 = outgoing_actions@;
            self.spawned = false;
            let action = EntityAction::DespawnEntity(self.entity);
            outgoing_actions.push(action);
            self.receive_canonical(index);
            self.clear_inserted();
            proof {
                lemma_legal_run_push(self.entity, life0, out0, action);
                assert(spec_step(life0, action)->0 == self.life());
            }
            match self.waiting_spawns.pop_front() {
                Some((spawn_index, components)) => {
                    let ghost life1 = self.life();
                    let ghost out1 = outgoing_actions@;
                    let _ = self.try_receive_spawn_entity_action(spawn_index, components, outgoing_actions);
                    proof {
                        lemma_legal_run_trans(self.entity, life0, life1, self.life(), out0, out1, outgoing_actions@);
                        assert(outgoing_actions@.subrange(0, out1.len() as int) == out1);
                        assert(outgoing_actions@[out0.len() as int] == out1[out0.len() as int]);
                    }
                },
                None => {},
            }
        } else {
            let ghost life0 = self.life();
            self.waiting_despawns.push_back(index, ());
            proof {
                lemma_legal_run_refl(self.entity, life0, outgoing_actions@);
            }
        }
        Ok(())
    }

    /// Spawns the entity with `components`, unless the message is older than
    /// the last spawn or despawn that took effect. An entity already spawned
    /// waits for its despawn; otherwise the spawn is handed out, and then a
    /// waiting despawn is tried if there is one, else the oldest waiting
    /// insert of each component.
    pub fn try_receive_spawn_entity_action(
        &mut self,
        action_index: MessageIndex,
        components: Vec<ComponentKind>,
        outgoing_actions: &mut Vec<EntityAction<E>>,
    ) -> (r: Result<(), EntityError>)
        requires
            old(self).wf(),
        ensures
            r is Ok,
            final(self).wf(),
            final(self).spec_entity() == old(self).spec_entity(),
            spec_legal_run(
                old(self).spec_entity(),
                old(self).life(),
                final(self).life(),
                old(outgoing_actions)@,
                final(outgoing_actions)@,
            ),
            old(self).last_index() is Some ==> final(self).last_index() is Some,
            spec_is_stale(old(self).last_index(), action_index) ==> *final(self) == *old(self)
                && final(outgoing_actions)@ == old(outgoing_actions)@,
            !spec_is_stale(old(self).last_index(), action_index) && old(self).life().spawned ==> {
                &&& final(outgoing_actions)@ == old(outgoing_actions)@
                &&& final(self).spawn_queue() == old(self).spawn_queue().insert(
                    spec_push_position(old(self).spawn_queue(), action_index, old(self).spawn_queue().len() as int),
                    (action_index, components),
                )
            },
            !spec_is_stale(old(self).last_index(), action_index) && !old(self).life().spawned ==> {
                &&& final(outgoing_actions)@.len() > old(outgoing_actions)@.len()
                &&& final(outgoing_actions)@[old(outgoing_actions)@.len() as int]
                    == EntityAction::<E>::SpawnEntity(old(self).spec_entity(), components)
                &&& final(self).last_index() is Some
            },
        decreases old(self).outer_waiting(),
    {
        if is_stale(self.last_canonical_index, action_index) {
            proof {
                lemma_legal_run_refl(self.entity, self.life(), outgoing_actions@);
            }
            return Ok(());
        }
        if !self.spawned {
            let ghost life0 = self.life();
            let ghost out0 = outgoing_actions@;
            self.spawned = true;
            let action = EntityAction::SpawnEntity(self.entity, components);
            outgoing_actions.push(action);
            self.receive_canonical(action_index);
            let ghost life1 = self.life();
            let ghost out1 = outgoing_actions@;
            proof {
                lemma_legal_run_push(self.entity, life0, out0, action);
                assert(spec_step(life0, action)->0 == life1);
            }
            match self.waiting_despawns.pop_front() {
                Some((despawn_index, _)) => {
                    let _ = self.try_receive_despawn_entity_action(despawn_index, outgoing_actions);
                    proof {
                        lemma_legal_run_trans(self.entity, life0, life1, self.life(), out0, out1, outgoing_actions@);
                        assert(outgoing_actions@.subrange(0, out1.len() as int) == out1);
                        assert(outgoing_actions@[out0.len() as int] == out1[out0.len() as int]);
                    }
                },
                None => {
                    let mut inserted_components: Vec<(MessageIndex, ComponentKind)> = Vec::new();
                    let ghost pre = *self;
                    let mut i: usize = 0;
                    while i < self.components.len()
                        invariant
                            self.entity == pre.entity,
                            self.spawned == pre.spawned,
                            self.last_canonical_index == pre.last_canonical_index,
                            self.waiting_spawns == pre.waiting_spawns,
                            self.waiting_despawns == pre.waiting_despawns,
                            self.components@.len() == pre.components@.len(),
                            i <= self.components@.len(),
                            spec_unique_kinds(self.components@),
                            spec_inserted_set(self.components@) == spec_inserted_set(pre.components@),
                        decreases pre.components@.len() - i,
                    {
                        let ghost before = self.components@;
                        let (kind, mut channel) = self.components.remove(i);
                        let popped = channel.waiting_inserts.pop_front();
                        self.components.insert(i, (kind, channel));
                        proof {
                            assert(self.components@ =~= before.update(i as int, (kind, channel)));
                            lemma_inserted_set_same(before, i as int, (kind, channel));
                        }
                        match popped {
                            Some((insert_index, _)) => inserted_components.push((insert_index, kind)),
                            None => {},
                        }
                        i += 1;
                    }
                    let mut j: usize = 0;
                    while j < inserted_components.len()
                        invariant
                            self.wf(),
                            self.entity == pre.entity,
                            self.last_canonical_index is Some,
                            self.life().spawned,
                            spec_legal_run(self.entity, life0, self.life(), out0, outgoing_actions@),
                            outgoing_actions@.len() >= out1.len(),
                            outgoing_actions@[out0.len() as int] == action,
                            out1.len() == out0.len() + 1,
                        decreases inserted_components@.len() - j,
                    {
                        let (insert_index, kind) = inserted_components[j];
                        let ghost life2 = self.life();
                        let ghost out2 = outgoing_actions@;
                        let _ = self.try_receive_insert_component_action(insert_index, kind, outgoing_actions);
                        proof {
                            lemma_legal_run_trans(self.entity, life0, life2, self.life(), out0, out2, outgoing_actions@);
                            assert(outgoing_actions@.subrange(0, out2.len() as int) == out2);
                            assert(outgoing_actions@[out0.len() as int] == out2[out0.len() as int]);
                        }
                        j += 1;
                    }
                },
            }
        } else {
            let ghost life0 = self.life();
            self.waiting_spawns.push_back(action_index, components);
            proof {
                lemma_legal_run_refl(self.entity, life0, outgoing_actions@);
            }
        }
        Ok(())
    }

    /// Hands the action to the handler of its kind; `Noop` does nothing.
    pub fn try_receive_action(
        &mut self,
        incoming_action_index: MessageIndex,
        incoming_action: EntityAction<E>,
        outgoing_actions: &mut Vec<EntityAction<E>>,
    ) -> (r: Result<(), EntityError>)
        requires
            old(self).wf(),
        ensures
            r is Ok,
            final(self).wf(),
            final(self).spec_entity() == old(self).spec_entity(),
            spec_legal_run(
                old(self).spec_entity(),
                old(self).life(),
                final(self).life(),
                old(outgoing_actions)@,
                final(outgoing_actions)@,
            ),
            incoming_action is Noop ==> *final(self) == *old(self) && final(outgoing_actions)@ == old(
                outgoing_actions,
            )@,
            spec_is_stale(old(self).last_index(), incoming_action_index) ==> *final(self) == *old(self)
                && final(outgoing_actions)@ == old(outgoing_actions)@,
            incoming_action matches EntityAction::SpawnEntity(_, components) ==> {
                &&& !spec_is_stale(old(self).last_index(), incoming_action_index) && old(self).life().spawned ==> {
                    &&& final(outgoing_actions)@ == old(outgoing_actions)@
                    &&& final(self).spawn_queue() == old(self).spawn_queue().insert(
                        spec_push_position(
                            old(self).spawn_queue(),
                            incoming_action_index,
                            old(self).spawn_queue().len() as int,
                        ),
                        (incoming_action_index, components),
                    )
                }
                &&& !spec_is_stale(old(self).last_index(), incoming_action_index) && !old(self).life().spawned ==> {
                    &&& final(outgoing_actions)@.len() > old(outgoing_actions)@.len()
                    &&& final(outgoing_actions)@[old(outgoing_actions)@.len() as int]
                        == EntityAction::<E>::SpawnEntity(old(self).spec_entity(), components)
                    &&& final(self).last_index() is Some
                }
            },
            incoming_action is DespawnEntity ==> {
                &&& !spec_is_stale(old(self).last_index(), incoming_action_index) && !old(self).life().spawned ==> {
                    &&& final(outgoing_actions)@ == old(outgoing_actions)@
                    &&& final(self).despawn_queue() == old(self).despawn_queue().insert(
                        spec_push_position(
                            old(self).despawn_queue(),
                            incoming_action_index,
                            old(self).despawn_queue().len() as int,
                        ),
                        (incoming_action_index, ()),
                    )
                }
                &&& !spec_is_stale(old(self).last_index(), incoming_action_index) && old(self).life().spawned ==> {
                    &&& final(outgoing_actions)@.len() > old(outgoing_actions)@.len()
                    &&& final(outgoing_actions)@[old(outgoing_actions)@.len() as int]
                        == EntityAction::<E>::DespawnEntity(old(self).spec_entity())
                    &&& final(self).last_index() is Some
                }
            },
            incoming_action matches EntityAction::InsertComponent(_, component) ==> {
                &&& final(self).life().spawned == old(self).life().spawned
                &&& final(self).spawn_queue() == old(self).spawn_queue()
                &&& final(self).despawn_queue() == old(self).despawn_queue()
                &&& !spec_is_stale(old(self).last_index(), incoming_action_index) && spec_is_stale(
                    old(self).component_last_index(component),
                    incoming_action_index,
                ) ==> final(outgoing_actions)@ == old(outgoing_actions)@
                &&& !spec_is_stale(old(self).last_index(), incoming_action_index) && !spec_is_stale(
                    old(self).component_last_index(component),
                    incoming_action_index,
                ) ==> if !old(self).life().inserted.contains(component) {
                    &&& final(outgoing_actions)@.len() > old(outgoing_actions)@.len()
                    &&& final(outgoing_actions)@[old(outgoing_actions)@.len() as int]
                        == EntityAction::InsertComponent(old(self).spec_entity(), component)
                } else {
                    final(outgoing_actions)@ == old(outgoing_actions)@
                }
            },
            incoming_action matches EntityAction::RemoveComponent(_, component) ==> {
                &&& final(self).life().spawned == old(self).life().spawned
                &&& final(self).spawn_queue() == old(self).spawn_queue()
                &&& final(self).despawn_queue() == old(self).despawn_queue()
                &&& !spec_is_stale(old(self).last_index(), incoming_action_index) && spec_is_stale(
                    old(self).component_last_index(component),
                    incoming_action_index,
                ) ==> final(outgoing_actions)@ == old(outgoing_actions)@
                &&& !spec_is_stale(old(self).last_index(), incoming_action_index) && !spec_is_stale(
                    old(self).component_last_index(component),
                    incoming_action_index,
                ) ==> if old(self).life().inserted.contains(component) {
                    &&& final(outgoing_actions)@.len() > old(outgoing_actions)@.len()
                    &&& final(outgoing_actions)@[old(outgoing_actions)@.len() as int]
                        == EntityAction::RemoveComponent(old(self).spec_entity(), component)
                } else {
                    final(outgoing_actions)@ == old(outgoing_actions)@
                }
            },
    {
        match incoming_action {
            EntityAction::SpawnEntity(_, components) => {
                self.try_receive_spawn_entity_action(incoming_action_index, components, outgoing_actions)
            },
            EntityAction::DespawnEntity(_) => {
                self.try_receive_despawn_entity_action(incoming_action_index, outgoing_actions)
            },
            EntityAction::InsertComponent(_, component) => {
                self.try_receive_insert_component_action(incoming_action_index, component, outgoing_actions)
            },
            EntityAction::RemoveComponent(_, component) => {
                self.try_receive_remove_component_action(incoming_action_index, component, outgoing_actions)
            },
            EntityAction::Noop => {
                proof {
                    lemma_legal_run_refl(self.entity, self.life(), outgoing_actions@);
                }
                Ok(())
            },
        }
    }

    /// As `try_receive_action`, which never fails.
    pub fn receive_action(
        &mut self,
        incoming_action_index: MessageIndex,
        incoming_action: EntityAction<E>,
        outgoing_actions: &mut Vec<EntityAction<E>>,
    )
        requires
            old(self).wf(),
        ensures
            final(self).wf(),
            final(self).spec_entity() == old(self).spec_entity(),
            spec_legal_run(
                old(self).spec_entity(),
                old(self).life(),
                final(self).life(),
                old(outgoing_actions)@,
                final(outgoing_actions)@,
            ),
    {
        let _ = self.try_receive_action(incoming_action_index, incoming_action, outgoing_actions);
    }

    /// As `try_receive_spawn_entity_action`, which never fails.
    pub fn receive_spawn_entity_action(
        &mut self,
        action_index: MessageIndex,
        components: Vec<ComponentKind>,
        outgoing_actions: &mut Vec<EntityAction<E>>,
    )
        requires
            old(self).wf(),
        ensures
            final(self).wf(),
            final(self).spec_entity() == old(self).spec_entity(),
            spec_legal_run(
                old(self).spec_entity(),
                old(self).life(),
                final(self).life(),
                old(outgoing_actions)@,
                final(outgoing_actions)@,
            ),
            !spec_is_stale(old(self).last_index(), action_index) && !old(self).life().spawned ==> {
                &&& final(outgoing_actions)@.len() > old(outgoing_actions)@.len()
                &&& final(outgoing_actions)@[old(outgoing_actions)@.len() as int]
                    == EntityAction::<E>::SpawnEntity(old(self).spec_entity(), components)
            },
    {
        let _ = self.try_receive_spawn_entity_action(action_index, components, outgoing_actions);
    }

    /// As `try_receive_despawn_entity_action`, which never fails.
    pub fn receive_despawn_entity_action(
        &mut self,
        index: MessageIndex,
        outgoing_actions: &mut Vec<EntityAction<E>>,
    )
        requires
            old(self).wf(),
        ensures
            final(self).wf(),
            final(self).spec_entity() == old(self).spec_entity(),
            spec_legal_run(
                old(self).spec_entity(),
                old(self).life(),
                final(self).life(),
                old(outgoing_actions)@,
                final(outgoing_actions)@,
            ),
            !spec_is_stale(old(self).last_index(), index) && old(self).life().spawned ==> {
                &&& final(outgoing_actions)@.len() > old(outgoing_actions)@.len()
                &&& final(outgoing_actions)@[old(outgoing_actions)@.len() as int]
                    == EntityAction::<E>::DespawnEntity(old(self).spec_entity())
            },
    {
        let _ = self.try_receive_despawn_entity_action(index, outgoing_actions);
    }

    /// As `try_receive_insert_component_action`, which never fails.
    pub fn receive_insert_component_action(
        &mut self,
        index: MessageIndex,
        component: ComponentKind,
        outgoing_actions: &mut Vec<EntityAction<E>>,
    )
        requires
            old(self).wf(),
        ensures
            final(self).wf(),
            final(self).spec_entity() == old(self).spec_entity(),
            final(self).life().spawned == old(self).life().spawned,
            spec_legal_run(
                old(self).spec_entity(),
                old(self).life(),
                final(self).life(),
                old(outgoing_actions)@,
                final(outgoing_actions)@,
            ),
            !spec_is_stale(old(self).last_index(), index) && !spec_is_stale(
                old(self).component_last_index(component),
                index,
            ) && !old(self).life().inserted.contains(component) ==> {
                &&& final(outgoing_actions)@.len() > old(outgoing_actions)@.len()
                &&& final(outgoing_actions)@[old(outgoing_actions)@.len() as int]
                    == EntityAction::<E>::InsertComponent(old(self).spec_entity(), component)
            },
    {
        let _ = self.try_receive_insert_component_action(index, component, outgoing_actions);
    }

    /// As `try_receive_remove_component_action`, which never fails.
    pub fn receive_remove_component_action(
        &mut self,
        index: MessageIndex,
        component: ComponentKind,
        outgoing_actions: &mut Vec<EntityAction<E>>,
    )
        requires
            old(self).wf(),
        ensures
            final(self).wf(),
            final(self).spec_entity() == old(self).spec_entity(),
            final(self).life().spawned == old(self).life().spawned,
            spec_legal_run(
                old(self).spec_entity(),
                old(self).life(),
                final(self).life(),
                old(outgoing_actions)@,
                final(outgoing_actions)@,
            ),
            !spec_is_stale(old(self).last_index(), index) && !spec_is_stale(
                old(self).component_last_index(component),
                index,
            ) && old(self).life().inserted.contains(component) ==> {
                &&& final(outgoing_actions)@.len() > old(outgoing_actions)@.len()
                &&& final(outgoing_actions)@[old(outgoing_actions)@.len() as int]
                    == EntityAction::<E>::RemoveComponent(old(self).spec_entity(), component)
            },
    {
        let _ = self.try_receive_remove_component_action(index, component, outgoing_actions);
    }
}


/// The actions of `s` that are about `entity`, in order.
pub open spec fn spec_about<E>(s: Seq<EntityAction<E>>, entity: E) -> Seq<EntityAction<E>> {
    s.filter(|a: EntityAction<E>| spec_action_entity(a) == Some(entity))
}

/// Keeping the actions about `entity` keeps all of a sequence that is only about it.
pub proof fn lemma_about_all<E>(s: Seq<EntityAction<E>>, entity: E)
    requires
        spec_all_about(s, entity),
    ensures
        spec_about(s, entity) == s,
    decreases s.len(),
{
    reveal(Seq::filter);
    if s.len() > 0 {
        lemma_about_all(s.drop_last(), entity);
        assert(s.drop_last().push(s.last()) =~= s);
    }
}

/// Keeping the actions about `other` keeps none of a sequence about `entity` alone.
pub proof fn lemma_about_none<E>(s: Seq<EntityAction<E>>, entity: E, other: E)
    requires
        spec_all_about(s, entity),
        other != entity,
    ensures
        spec_about(s, other) == Seq::<EntityAction<E>>::empty(),
    decreases s.len(),
{
    reveal(Seq::filter);
    if s.len() > 0 {
        lemma_about_none(s.drop_last(), entity, other);
    }
}

/// The lifecycle of an entity with no bookkeeping yet: not spawned, nothing present.
pub open spec fn spec_fresh_life() -> LifeState {
    LifeState { spawned: false, inserted: Set::empty() }
}

/// The lifecycle recorded for `entity` in `m`, or a fresh one.
pub open spec fn start_life<E: Copy>(m: Map<E, EntityChannel<E>>, entity: E) -> LifeState {
    if m.contains_key(entity) {
        m[entity].life()
    } else {
        spec_fresh_life()
    }
}

/// Where the first action about `entity` stands in `s`, or -1 where none is.
pub open spec fn spec_first_about<E>(s: Seq<(MessageIndex, EntityAction<E>)>, entity: E) -> int
    decreases s.len(),
{
    if s.len() == 0 {
        -1
    } else {
        let r = spec_first_about(s.drop_last(), entity);
        if r >= 0 {
            r
        } else if spec_action_entity(s.last().1) == Some(entity) {
            s.len() - 1
        } else {
            -1
        }
    }
}

/// The first action about an entity stands in the sequence and is about it.
pub proof fn lemma_first_about_bound<E>(s: Seq<(MessageIndex, EntityAction<E>)>, entity: E)
    ensures
        -1 <= spec_first_about(s, entity) < s.len(),
        spec_first_about(s, entity) >= 0 ==> spec_action_entity(s[spec_first_about(s, entity)].1) == Some(entity),
        spec_first_about(s, entity) < 0 ==> forall|j: int| 0 <= j < s.len() ==> spec_action_entity(#[trigger] s[j].1)
            != Some(entity),
    decreases s.len(),
{
    if s.len() > 0 {
        lemma_first_about_bound(s.drop_last(), entity);
        let r = spec_first_about(s.drop_last(), entity);
        if r >= 0 {
            assert(s[r] == s.drop_last()[r]);
        }
        assert(s.last() == s[s.len() - 1]);
        if spec_first_about(s, entity) < 0 {
            assert forall|j: int| 0 <= j < s.len() implies spec_action_entity(#[trigger] s[j].1) != Some(entity) by {
                if j < s.len() - 1 {
                    assert(s[j] == s.drop_last()[j]);
                }
            }
        }
    }
}

/// What a channel hands out first on taking `action` under `index`, where the
/// action itself decides it: the channel's last index is `last`, the last
/// index for the action's component is `component_last`, and `life` is what
/// it handed out so far says. A spawn of an entity not spawned, a despawn of
/// one spawned, an insert of a component not present and a remove of one
/// present go out at once, unless older than what took effect last.
pub open spec fn spec_first_out<E>(
    last: Option<MessageIndex>,
    component_last: Option<MessageIndex>,
    life: LifeState,
    index: MessageIndex,
    action: EntityAction<E>,
) -> Option<EntityAction<E>> {
    if spec_is_stale(last, index) {
        None
    } else {
        match action {
            EntityAction::SpawnEntity(_, _) => if !life.spawned {
                Some(action)
            } else {
                None
            },
            EntityAction::DespawnEntity(_) => if life.spawned {
                Some(action)
            } else {
                None
            },
            EntityAction::InsertComponent(_, k) => if !spec_is_stale(component_last, index) && !life.inserted.contains(k) {
                Some(action)
            } else {
                None
            },
            EntityAction::RemoveComponent(_, k) => if !spec_is_stale(component_last, index) && life.inserted.contains(k) {
                Some(action)
            } else {
                None
            },
            EntityAction::Noop => None,
        }
    }
}

/// An entity no action has reached yet takes its first spawn or insert at
/// once, whatever the index; a despawn or remove goes out only later, and a
/// no-op never.
pub proof fn lemma_fresh_first_out<E>(index: MessageIndex, action: EntityAction<E>)
    ensures
        spec_first_out(None, None, spec_fresh_life(), index, action) == (match action {
            EntityAction::SpawnEntity(_, _) => Some(action),
            EntityAction::InsertComponent(_, _) => Some(action),
            _ => None,
        }),
{
}

/// The component an action is about; a fixed kind for the others.
pub open spec fn spec_action_component<E>(a: EntityAction<E>) -> ComponentKind {
    match a {
        EntityAction::InsertComponent(_, k) => k,
        EntityAction::RemoveComponent(_, k) => k,
        _ => ComponentKind { id: 0 },
    }
}

/// Receives entity actions in any order and hands them out in an order that
/// is legal for each entity.
#[verifier::reject_recursive_types(E)]
pub struct EntityActionReceiver<E: EntityKey> {
    receiver: VecDeque<(MessageIndex, EntityAction<E>)>,
    entity_channels: HashMap<u64, EntityChannel<E>>,
}

impl<E: EntityKey> EntityActionReceiver<E> {
    /// The bookkeeping of each entity seen so far.
    pub closed spec fn channels(&self) -> Map<E, EntityChannel<E>> {
        spec_keyed(self.entity_channels@)
    }

    /// The actions buffered and not yet processed, in arrival order.
    pub closed spec fn buffered(&self) -> Seq<(MessageIndex, EntityAction<E>)> {
        self.receiver@
    }

    /// What the actions handed out so far say of `entity`.
    pub open spec fn life_of(&self, entity: E) -> LifeState {
        if self.channels().contains_key(entity) {
            self.channels()[entity].life()
        } else {
            spec_fresh_life()
        }
    }

    /// The last index that took effect for `entity`; none where it has no channel.
    pub open spec fn last_index_of(&self, entity: E) -> Option<MessageIndex> {
        if self.channels().contains_key(entity) {
            self.channels()[entity].last_index()
        } else {
            None
        }
    }

    /// The last index that took effect for `component` of `entity`; none
    /// where the entity has no channel.
    pub open spec fn component_last_index_of(&self, entity: E, component: ComponentKind) -> Option<MessageIndex> {
        if self.channels().contains_key(entity) {
            self.channels()[entity].component_last_index(component)
        } else {
            None
        }
    }

    /// What `entity`'s channel hands out first on taking `action` under
    /// `index`, where the action itself decides it.
    pub open spec fn first_out_of(&self, entity: E, index: MessageIndex, action: EntityAction<E>) -> Option<
        EntityAction<E>,
    > {
        spec_first_out(
            self.last_index_of(entity),
            self.component_last_index_of(entity, spec_action_component(action)),
            self.life_of(entity),
            index,
            action,
        )
    }

    /// For an entity with no channel yet, its first spawn or insert goes out at
    /// once, whatever its index.
    pub proof fn lemma_unknown_entity_first_out(&self, entity: E, index: MessageIndex, action: EntityAction<E>)
        requires
            !self.channels().contains_key(entity),
        ensures
            self.first_out_of(entity, index, action) == (match action {
                EntityAction::SpawnEntity(_, _) => Some(action),
                EntityAction::InsertComponent(_, _) => Some(action),
                _ => None,
            }),
    {
        lemma_fresh_first_out(index, action);
    }

    pub open spec fn wf(&self) -> bool {
        &&& forall|e: E| #[trigger] self.channels().contains_key(e) ==> self.channels()[e].wf()
            && self.channels()[e].spec_entity() == e
    }

    pub fn new() -> (r: EntityActionReceiver<E>)
        ensures
            r.wf(),
            r.channels() == Map::<E, EntityChannel<E>>::empty(),
            r.buffered() == Seq::<(MessageIndex, EntityAction<E>)>::empty(),
    {
        let r = EntityActionReceiver { receiver: VecDeque::new(), entity_channels: HashMap::new() };
        proof {
            assert(r.channels() =~= Map::<E, EntityChannel<E>>::empty());
        }
        r
    }

    /// Starts bookkeeping for an entity that is already spawned here with
    /// `component_kinds`, none of them yet reported present; it replaces any
    /// earlier bookkeeping of the entity.
    pub fn track_hosts_redundant_remote_entity(&mut self, entity: &E, component_kinds: &Vec<ComponentKind>)
        requires
            old(self).wf(),
        ensures
            final(self).wf(),
            final(self).buffered() == old(self).buffered(),
            final(self).channels().dom() == old(self).channels().dom().insert(*entity),
            forall|e: E| e != *entity && #[trigger] old(self).channels().contains_key(e) ==> final(self).channels()[e]
                == old(self).channels()[e],
            final(self).life_of(*entity) == (LifeState { spawned: true, inserted: Set::<ComponentKind>::empty() }),
            final(self).channels()[*entity].last_index() is None,
            forall|k: ComponentKind| #[trigger] component_kinds@.contains(k) ==> spec_has_kind(
                final(self).channels()[*entity].component_list(),
                k,
            ),
    {
        let mut entity_channel = EntityChannel::new(*entity);
        entity_channel.spawned = true;
        let mut i: usize = 0;
        while i < component_kinds.len()
            invariant
                entity_channel.wf(),
                entity_channel.entity == *entity,
                entity_channel.spawned,
                entity_channel.last_canonical_index is None,
                entity_channel.life().inserted == Set::<ComponentKind>::empty(),
                i <= component_kinds@.len(),
                forall|j: int| 0 <= j < i ==> spec_has_kind(entity_channel.components@, #[trigger] component_kinds@[j]),
            decreases component_kinds@.len() - i,
        {
            let ghost before = entity_channel.components@;
            let c = entity_channel.ensure_component(component_kinds[i]);
            proof {
                assert forall|j: int| 0 <= j < i + 1 implies spec_has_kind(
                    entity_channel.components@,
                    #[trigger] component_kinds@[j],
                ) by {
                    if j == i {
                        assert(entity_channel.components@[c as int].0 == component_kinds@[j]);
                    } else {
                        assert(spec_has_kind(before, component_kinds@[j]));
                        let c1 = choose|c1: int| 0 <= c1 < before.len() && #[trigger] before[c1].0 == component_kinds@[j];
                        assert(entity_channel.components@[c1] == before[c1]);
                    }
                }
            }
            i += 1;
        }
        proof {
            assert forall|k: ComponentKind| #[trigger] component_kinds@.contains(k) implies spec_has_kind(
                entity_channel.components@,
                k,
            ) by {
                let j = choose|j: int| 0 <= j < component_kinds@.len() && component_kinds@[j] == k;
                assert(spec_has_kind(entity_channel.components@, component_kinds@[j]));
            }
        }
        let key = entity.key();
        let ghost stored0 = self.entity_channels@;
        self.entity_channels.insert(key, entity_channel);
        proof {
            lemma_keyed_insert::<E, EntityChannel<E>>(stored0, *entity, entity_channel);
            assert forall|e: E| #[trigger] self.channels().contains_key(e) implies self.channels()[e].wf()
                && self.channels()[e].spec_entity() == e by {
                if e != *entity {
                    assert(old(self).channels().contains_key(e));
                }
            }
        }
    }

    /// Forgets the bookkeeping of `entity`.
    pub fn untrack_hosts_redundant_remote_entity(&mut self, entity: &E)
        requires
            old(self).wf(),
        ensures
            final(self).wf(),
            final(self).buffered() == old(self).buffered(),
            final(self).channels() == old(self).channels().remove(*entity),
    {
        let key = entity.key();
        let ghost stored0 = self.entity_channels@;
        self.entity_channels.remove(&key);
        proof {
            lemma_keyed_remove::<E, EntityChannel<E>>(stored0, *entity);
            assert forall|e: E| #[trigger] self.channels().contains_key(e) implies self.channels()[e].wf()
                && self.channels()[e].spec_entity() == e by {
                assert(old(self).channels().contains_key(e));
            }
        }
    }

    /// Buffers an action that was read, to be processed later.
    pub fn buffer_action(&mut self, action_index: MessageIndex, action: EntityAction<E>)
        requires
            old(self).wf(),
        ensures
            final(self).wf(),
            final(self).channels() == old(self).channels(),
            final(self).buffered() == old(self).buffered().push((action_index, action)),
    {
        self.receiver.push_back((action_index, action));
        assert(self.channels() == old(self).channels());
    }

    /// Processes every buffered action, in arrival order, through the
    /// bookkeeping of its entity, and returns the actions that can take
    /// effect now. For each entity, the returned actions about it are legal
    /// one after the other, starting from what earlier calls reported.
    pub fn try_receive_actions(&mut self) -> (r: Result<Vec<EntityAction<E>>, EntityError>)
        requires
            old(self).wf(),
        ensures
            final(self).wf(),
            final(self).buffered() == Seq::<(MessageIndex, EntityAction<E>)>::empty(),
            r is Ok,
            forall|e: E| spec_replay(old(self).life_of(e), #[trigger] spec_about(r->Ok_0@, e)) == Some(
                final(self).life_of(e),
            ),
            forall|i: int| 0 <= i < r->Ok_0@.len() ==> spec_action_entity(#[trigger] r->Ok_0@[i]) is Some,
            forall|e: E|
                #![trigger spec_first_about(old(self).buffered(), e)]
                spec_first_about(old(self).buffered(), e) < 0 ==> spec_about(r->Ok_0@, e)
                    == Seq::<EntityAction<E>>::empty(),
            forall|e: E|
                #![trigger spec_first_about(old(self).buffered(), e)]
                spec_first_about(old(self).buffered(), e) >= 0 ==> ({
                    let f = old(self).buffered()[spec_first_about(old(self).buffered(), e)];
                    old(self).first_out_of(e, f.0, f.1) matches Some(x) ==> spec_about(r->Ok_0@, e).len() > 0
                        && spec_about(r->Ok_0@, e)[0] == x
                }),
    {
        let mut outgoing_actions: Vec<EntityAction<E>> = Vec::new();
        let mut incoming_actions: VecDeque<(MessageIndex, EntityAction<E>)> = VecDeque::new();
        std::mem::swap(&mut incoming_actions, &mut self.receiver);
        let ghost start = *self;
        let ghost buf0 = incoming_actions@;
        let ghost mut k: int = 0;
        proof {
            assert forall|e: E| spec_replay(start.life_of(e), #[trigger] spec_about(outgoing_actions@, e)) == Some(
                self.life_of(e),
            ) by {
                reveal(Seq::filter);
            }
            assert(buf0.take(0) =~= Seq::<(MessageIndex, EntityAction<E>)>::empty());
            assert(buf0.skip(0) =~= buf0);
            assert forall|e: E| spec_about(outgoing_actions@, e) == Seq::<EntityAction<E>>::empty() by {
                reveal(Seq::filter);
                assert(spec_about(outgoing_actions@, e) =~= Seq::<EntityAction<E>>::empty());
            }
        }
        while incoming_actions.len() > 0
            invariant
                self.wf(),
                self.receiver@ == Seq::<(MessageIndex, EntityAction<E>)>::empty(),
                start.channels() == old(self).channels(),
                buf0 == old(self).buffered(),
                0 <= k <= buf0.len(),
                incoming_actions@ == buf0.skip(k),
                forall|e: E| spec_replay(start.life_of(e), #[trigger] spec_about(outgoing_actions@, e)) == Some(
                    self.life_of(e),
                ),
                forall|i: int| 0 <= i < outgoing_actions@.len() ==> spec_action_entity(#[trigger] outgoing_actions@[i]) is Some,
                forall|e: E|
                    #![trigger spec_first_about(buf0.take(k), e)]
                    spec_first_about(buf0.take(k), e) < 0 ==> {
                        &&& spec_about(outgoing_actions@, e) == Seq::<EntityAction<E>>::empty()
                        &&& self.channels().contains_key(e) == old(self).channels().contains_key(e)
                        &&& old(self).channels().contains_key(e) ==> self.channels()[e] == old(self).channels()[e]
                    },
                forall|e: E|
                    #![trigger spec_first_about(buf0.take(k), e)]
                    spec_first_about(buf0.take(k), e) >= 0 ==> ({
                        let f = buf0[spec_first_about(buf0.take(k), e)];
                        old(self).first_out_of(e, f.0, f.1) matches Some(x) ==> spec_about(outgoing_actions@, e).len()
                            > 0 && spec_about(outgoing_actions@, e)[0] == x
                    }),
            decreases incoming_actions@.len(),
        {
            let ghost out0 = outgoing_actions@;
            let ghost map0 = self.channels();
            let (action_index, action) = match incoming_actions.pop_front() {
                Some(p) => p,
                None => (0, EntityAction::Noop),
            };
            proof {
                assert(buf0.skip(k)[0] == buf0[k]);
                assert(buf0[k] == (action_index, action));
            }
            match action.entity() {
                Some(entity) => {
                    proof {
                        if self.channels().contains_key(entity) {
                            assert(self.channels()[entity].wf());
                        }
                    }
                    let ghost before_map = self.channels();
                    let ghost stored0 = self.entity_channels@;
                    let key = entity.key();
                    let mut channel = match self.entity_channels.remove(&key) {
                        Some(c) => c,
                        None => EntityChannel::new(entity),
                    };
                    let ghost ch0 = channel;
                    let ghost life0 = channel.life();
                    proof {
                        lemma_keyed_remove::<E, EntityChannel<E>>(stored0, entity);
                        if before_map.contains_key(entity) {
                            assert(stored0.contains_key(key));
                            assert(ch0 == before_map[entity]);
                        }
                    }
                    let _ = channel.try_receive_action(action_index, action, &mut outgoing_actions);
                    self.entity_channels.insert(key, channel);
                    proof {
                        lemma_keyed_insert::<E, EntityChannel<E>>(stored0.remove(key), entity, channel);
                        assert(self.channels() == before_map.remove(entity).insert(entity, channel));
                        assert forall|e: E| #[trigger] self.channels().contains_key(e) implies self.channels()[e].wf()
                            && self.channels()[e].spec_entity() == e by {
                            if e != entity {
                                assert(before_map.contains_key(e));
                            }
                        }
                        assert(life0 == start_life(before_map, entity));
                        let app = spec_appended(out0, outgoing_actions@);
                        assert(outgoing_actions@ =~= out0 + app);
                        assert forall|e: E| spec_replay(start.life_of(e), #[trigger] spec_about(outgoing_actions@, e)) == Some(
                            self.life_of(e),
                        ) by {
                            Seq::filter_distributes_over_add(out0, app, |a: EntityAction<E>| spec_action_entity(a) == Some(e));
                            if e == entity {
                                lemma_about_all(app, entity);
                                lemma_replay_append(start.life_of(e), spec_about(out0, e), app);
                            } else {
                                lemma_about_none(app, entity, e);
                                assert(spec_about(out0, e) + Seq::<EntityAction<E>>::empty() =~= spec_about(out0, e));
                            }
                        }
                        assert forall|i: int| 0 <= i < outgoing_actions@.len() implies spec_action_entity(
                            #[trigger] outgoing_actions@[i],
                        ) is Some by {
                            if i >= out0.len() {
                                assert(outgoing_actions@[i] == app[i - out0.len()]);
                            } else {
                                assert(outgoing_actions@[i] == out0[i]);
                            }
                        }
                        let t1 = buf0.take(k + 1);
                        assert(t1.drop_last() =~= buf0.take(k));
                        assert(t1.last() == buf0[k]);
                        assert forall|e: E|
                            #![trigger spec_first_about(buf0.take(k + 1), e)]
                            spec_first_about(buf0.take(k + 1), e) < 0 implies {
                                &&& spec_about(outgoing_actions@, e) == Seq::<EntityAction<E>>::empty()
                                &&& self.channels().contains_key(e) == old(self).channels().contains_key(e)
                                &&& old(self).channels().contains_key(e) ==> self.channels()[e] == old(self).channels()[e]
                            } by {
                            assert(spec_first_about(t1, e) == (if spec_first_about(buf0.take(k), e) >= 0 {
                                spec_first_about(buf0.take(k), e)
                            } else if spec_action_entity(buf0[k].1) == Some(e) {
                                k
                            } else {
                                -1
                            }));
                            assert(e != entity);
                            Seq::filter_distributes_over_add(out0, app, |a: EntityAction<E>| spec_action_entity(a) == Some(e));
                            lemma_about_none(app, entity, e);
                            assert(spec_about(out0, e) + Seq::<EntityAction<E>>::empty() =~= spec_about(out0, e));
                        }
                        assert forall|e: E|
                            #![trigger spec_first_about(buf0.take(k + 1), e)]
                            spec_first_about(buf0.take(k + 1), e) >= 0 implies ({
                                let f = buf0[spec_first_about(buf0.take(k + 1), e)];
                                old(self).first_out_of(e, f.0, f.1) matches Some(x) ==> spec_about(outgoing_actions@, e).len()
                                    > 0 && spec_about(outgoing_actions@, e)[0] == x
                            }) by {
                            let f0 = spec_first_about(buf0.take(k), e);
                            assert(spec_first_about(t1, e) == (if f0 >= 0 {
                                f0
                            } else if spec_action_entity(buf0[k].1) == Some(e) {
                                k
                            } else {
                                -1
                            }));
                            Seq::filter_distributes_over_add(out0, app, |a: EntityAction<E>| spec_action_entity(a) == Some(e));
                            if e != entity {
                                lemma_about_none(app, entity, e);
                                assert(spec_about(out0, e) + Seq::<EntityAction<E>>::empty() =~= spec_about(out0, e));
                            } else {
                                lemma_about_all(app, entity);
                                if f0 >= 0 {
                                    let a0 = spec_about(out0, e);
                                    if a0.len() > 0 {
                                        assert((a0 + app)[0] == a0[0]);
                                    }
                                } else {
                                    assert(spec_about(out0, e) + app =~= app);
                                    assert(ch0.last_index() == old(self).last_index_of(e));
                                    assert(ch0.component_last_index(spec_action_component(action))
                                        == old(self).component_last_index_of(e, spec_action_component(action)));
                                    assert(ch0.life() == old(self).life_of(e));
                                    assert(ch0.spec_entity() == e);
                                    if app.len() > 0 {
                                        assert(app[0] == outgoing_actions@[out0.len() as int]);
                                    }
                                }
                            }
                        }
                        k = k + 1;
                    }
                },
                None => {
                    proof {
                        let t1 = buf0.take(k + 1);
                        assert(t1.drop_last() =~= buf0.take(k));
                        assert(t1.last() == buf0[k]);
                        assert forall|e: E| spec_first_about(buf0.take(k + 1), e) == spec_first_about(buf0.take(k), e) by {
                            assert(spec_action_entity(buf0[k].1) != Some(e));
                        }
                        k = k + 1;
                        assert forall|e: E|
                            #![trigger spec_first_about(buf0.take(k), e)]
                            spec_first_about(buf0.take(k), e) < 0 implies {
                                &&& spec_about(outgoing_actions@, e) == Seq::<EntityAction<E>>::empty()
                                &&& self.channels().contains_key(e) == old(self).channels().contains_key(e)
                                &&& old(self).channels().contains_key(e) ==> self.channels()[e] == old(self).channels()[e]
                            } by {
                            assert(spec_first_about(buf0.take(k), e) == spec_first_about(buf0.take(k - 1), e));
                        }
                        assert forall|e: E|
                            #![trigger spec_first_about(buf0.take(k), e)]
                            spec_first_about(buf0.take(k), e) >= 0 implies ({
                                let f = buf0[spec_first_about(buf0.take(k), e)];
                                old(self).first_out_of(e, f.0, f.1) matches Some(x) ==> spec_about(outgoing_actions@, e).len()
                                    > 0 && spec_about(outgoing_actions@, e)[0] == x
                            }) by {
                            assert(spec_first_about(buf0.take(k), e) == spec_first_about(buf0.take(k - 1), e));
                        }
                    }
                },
            }
            proof {
                assert(incoming_actions@ =~= buf0.skip(k));
            }
        }
        proof {
            assert(buf0.skip(k).len() == 0);
            assert(buf0.take(k) =~= buf0);
        }
        Ok(outgoing_actions)
    }

    /// As `try_receive_actions`, which never fails.
    pub fn receive_actions(&mut self) -> (r: Vec<EntityAction<E>>)
        requires
            old(self).wf(),
        ensures
            final(self).wf(),
            final(self).buffered() == Seq::<(MessageIndex, EntityAction<E>)>::empty(),
            forall|e: E| spec_replay(old(self).life_of(e), #[trigger] spec_about(r@, e)) == Some(final(self).life_of(e)),
            forall|e: E|
                #![trigger spec_first_about(old(self).buffered(), e)]
                spec_first_about(old(self).buffered(), e) < 0 ==> spec_about(r@, e) == Seq::<EntityAction<E>>::empty(),
            forall|e: E|
                #![trigger spec_first_about(old(self).buffered(), e)]
                spec_first_about(old(self).buffered(), e) >= 0 ==> ({
                    let f = old(self).buffered()[spec_first_about(old(self).buffered(), e)];
                    old(self).first_out_of(e, f.0, f.1) matches Some(x) ==> spec_about(r@, e).len() > 0 && spec_about(
                        r@,
                        e,
                    )[0] == x
                }),
    {
        match self.try_receive_actions() {
            Ok(v) => v,
            Err(_) => Vec::new(),
        }
    }
}

} // verus!
