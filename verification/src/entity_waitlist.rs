//! Items held back until the entities they refer to are known, stored by handle.
use vstd::prelude::*;
use std::collections::{HashMap, HashSet, VecDeque};
use naia_socket_shared::Instant;
use vstd::std_specs::iter::IteratorSpec;
use vstd::set_lib::{lemma_int_range, lemma_map_size, set_int_range};

use crate::errors::RemoteWorldError;
use crate::types::RemoteEntity;

verus! {

broadcast use vstd::std_specs::hash::group_hash_axioms;

/// Names an item held back on a waitlist.
pub type WaitlistHandle = u16;

/// `items` are the items held under `handles`, in the same order.
pub open spec fn spec_items_of<T>(items: Seq<T>, handles: Seq<WaitlistHandle>, held: Map<WaitlistHandle, T>) -> bool {
    &&& items.len() == handles.len()
    &&& forall|i: int| 0 <= i < items.len() ==> held.contains_key(handles[i]) && #[trigger] items[i] == held[handles[i]]
}

/// `items` are the items held under the handles of `taken`, each once, in some order.
pub open spec fn spec_collected<T>(items: Seq<T>, held: Map<WaitlistHandle, T>, taken: Set<WaitlistHandle>) -> bool {
    exists|hs: Seq<WaitlistHandle>| #[trigger] spec_items_of(items, hs, held) && hs.no_duplicates() && hs.to_set() == taken
}

/// The items held back, by handle.
pub struct WaitlistStore<T> {
    item_handles: HashSet<WaitlistHandle>,
    items: HashMap<WaitlistHandle, T>,
}

impl<T> WaitlistStore<T> {
    /// The item held under each handle.
    pub closed spec fn items(&self) -> Map<WaitlistHandle, T> {
        self.items@
    }

    pub closed spec fn wf(&self) -> bool {
        &&& self.item_handles@ == self.items@.dom()
        &&& self.items@.dom().finite()
    }

    pub fn new() -> (r: WaitlistStore<T>)
        ensures
            r.wf(),
            r.items() == Map::<WaitlistHandle, T>::empty(),
    {
        WaitlistStore { item_handles: HashSet::new(), items: HashMap::new() }
    }

    /// Holds `item` under `handle`, replacing what was held there.
    pub fn queue(&mut self, handle: WaitlistHandle, item: T)
        requires
            old(self).wf(),
        ensures
            final(self).wf(),
            final(self).items() == old(self).items().insert(handle, item),
    {
        self.item_handles.insert(handle);
        self.items.insert(handle, item);
    }

    /// Takes out the item held under `handle`, if any.
    pub fn remove(&mut self, handle: &WaitlistHandle) -> (r: Option<T>)
        requires
            old(self).wf(),
        ensures
            final(self).wf(),
            final(self).items() == old(self).items().remove(*handle),
            match r {
                Some(item) => old(self).items().contains_key(*handle) && item == old(self).items()[*handle],
                None => !old(self).items().contains_key(*handle),
            },
    {
        self.item_handles.remove(handle);
        self.items.remove(handle)
    }

    /// The handles held here that are also in `handles`, each once.
    fn held_among(&self, handles: &HashSet<WaitlistHandle>) -> (r: Vec<WaitlistHandle>)
        requires
            self.wf(),
        ensures
            r@.no_duplicates(),
            r@.to_set() == self.items().dom().intersect(handles@),
    {
        let mut out: Vec<WaitlistHandle> = Vec::new();
        let ghost seen: Set<WaitlistHandle> = Set::empty();
        for h in it: self.item_handles.iter()
            invariant
                it.seq() == vstd::std_specs::hash::spec_hash_keys_iter(&self.item_handles).remaining(),
                out@.no_duplicates(),
                out@.to_set() == it.seq().take(it.index() as int).map_values(|p: &WaitlistHandle| *p).to_set().intersect(
                    handles@,
                ),
                forall|i: int| 0 <= i < out@.len() ==> it.seq().take(it.index() as int).map_values(
                    |p: &WaitlistHandle| *p,
                ).contains(#[trigger] out@[i]),
        {
            let ghost before = out@;
            let ghost taken = it.seq().take(it.index() as int).map_values(|p: &WaitlistHandle| *p);
            let ghost taken2 = it.seq().take(it.index() + 1).map_values(|p: &WaitlistHandle| *p);
            proof {
                assert(taken2 =~= taken.push(*h));
                assert(it.seq().no_duplicates());
            }
            if handles.contains(h) {
                out.push(*h);
                proof {
                    assert forall|i: int| 0 <= i < out@.len() implies taken2.contains(#[trigger] out@[i]) by {
                        if i < before.len() {
                            assert(taken.contains(before[i]));
                            let j = choose|j: int| 0 <= j < taken.len() && taken[j] == before[i];
                            assert(taken2[j] == taken[j]);
                        } else {
                            assert(taken2[taken.len() as int] == *h);
                        }
                    }
                    assert(!before.contains(*h)) by {
                        if before.contains(*h) {
                            let i = choose|i: int| 0 <= i < before.len() && before[i] == *h;
                            assert(taken.contains(before[i]));
                            let j = choose|j: int| 0 <= j < taken.len() && taken[j] == *h;
                            assert(it.seq()[j] == it.seq()[it.index() as int]);
                        }
                    }
                    assert(out@ =~= before.push(*h));
                    before.lemma_push_to_set_commute(*h);
                    taken.lemma_push_to_set_commute(*h);
                    assert(out@.to_set() =~= taken2.to_set().intersect(handles@));
                }
            } else {
                proof {
                    taken.lemma_push_to_set_commute(*h);
                    assert(out@.to_set() =~= taken2.to_set().intersect(handles@));
                    assert forall|i: int| 0 <= i < out@.len() implies taken2.contains(#[trigger] out@[i]) by {
                        assert(taken.contains(out@[i]));
                        let j = choose|j: int| 0 <= j < taken.len() && taken[j] == out@[i];
                        assert(taken2[j] == taken[j]);
                    }
                }
            }
        }
        proof {
            let s = vstd::std_specs::hash::spec_hash_keys_iter(&self.item_handles).remaining();
            assert(s.take(s.len() as int) =~= s);
            assert(s.map_values(|p: &WaitlistHandle| *p) =~= s.unref());
        }
        out
    }

    /// Takes out every item whose handle is in `ready_handles`, and removes
    /// those handles from it. The items come in no particular order; `None`
    /// where there is no such item here.
    pub fn try_collect_ready_items(&mut self, ready_handles: &mut HashSet<WaitlistHandle>) -> (r: Result<
        Option<Vec<T>>,
        RemoteWorldError,
    >)
        requires
            old(self).wf(),
        ensures
            final(self).wf(),
            r is Ok,
            ({
                let taken = old(self).items().dom().intersect(old(ready_handles)@);
                &&& final(self).items() == old(self).items().remove_keys(taken)
                &&& final(ready_handles)@ == old(ready_handles)@.difference(taken)
                &&& (taken.len() == 0 <==> r->Ok_0 is None)
                &&& (r->Ok_0 matches Some(v) ==> v@.len() == taken.len() && spec_collected(v@, old(self).items(), taken))
            }),
    {
        let handles = self.held_among(ready_handles);
        let ghost taken = self.items().dom().intersect(ready_handles@);
        let ghost items0 = self.items();
        let ghost ready0 = ready_handles@;
        proof {
            handles@.unique_seq_to_set();
        }
        if handles.len() == 0 {
            proof {
                assert(taken =~= handles@.to_set());
                assert(self.items() =~= items0.remove_keys(taken));
                assert(ready_handles@ =~= ready0.difference(taken));
            }
            return Ok(None);
        }
        let mut ready_messages: Vec<T> = Vec::new();
        let mut i: usize = 0;
        while i < handles.len()
            invariant
                self.wf(),
                handles@.no_duplicates(),
                handles@.to_set() == taken,
                taken == items0.dom().intersect(ready0),
                i <= handles@.len(),
                ready_messages@.len() == i,
                self.items() == items0.remove_keys(handles@.take(i as int).to_set()),
                ready_handles@ == ready0.difference(handles@.take(i as int).to_set()),
                forall|j: int| 0 <= j < i ==> #[trigger] ready_messages@[j] == items0[handles@[j]],
            decreases handles@.len() - i,
        {
            let handle = handles[i];
            proof {
                assert(handles@.to_set().contains(handle));
                assert(!handles@.take(i as int).contains(handle)) by {
                    if handles@.take(i as int).contains(handle) {
                        let j = choose|j: int| 0 <= j < i && handles@.take(i as int)[j] == handle;
                        assert(handles@[j] == handles@[i as int]);
                    }
                }
            }
            ready_handles.remove(&handle);
            let item = self.remove(&handle);
            match item {
                Some(it) => ready_messages.push(it),
                None => {
                    return Err(RemoteWorldError::WaitlistItemMissing { handle });
                },
            }
            proof {
                assert(handles@.take(i + 1).to_set() =~= handles@.take(i as int).to_set().insert(handle)) by {
                    assert(handles@.take(i + 1) =~= handles@.take(i as int).push(handle));
                    handles@.take(i as int).lemma_push_to_set_commute(handle);
                }
                assert(self.items() =~= items0.remove_keys(handles@.take(i + 1).to_set()));
                assert(ready_handles@ =~= ready0.difference(handles@.take(i + 1).to_set()));
            }
            i += 1;
        }
        proof {
            assert(handles@.take(handles@.len() as int) =~= handles@);
            assert(taken.len() == handles@.len()) by {
                handles@.unique_seq_to_set();
            }
            let hs = handles@;
            assert forall|j: int|
                #![trigger ready_messages@[j]]
                #![trigger hs[j]]
                0 <= j < ready_messages@.len() implies items0.contains_key(hs[j])
                && ready_messages@[j] == items0[hs[j]] by {
                assert(hs.to_set().contains(hs[j]));
                assert(ready_messages@[j] == items0[handles@[j]]);
            }
            assert(hs.to_set() == taken);
            assert(self.items() == items0.remove_keys(taken));
            assert(ready_handles@ == ready0.difference(taken));
            assert(hs.no_duplicates() && hs.len() == ready_messages@.len());
            assert(spec_items_of(ready_messages@, hs, items0));
            assert(spec_collected(ready_messages@, items0, taken));
        }
        Ok(Some(ready_messages))
    }

    /// As `try_collect_ready_items`, which never fails.
    pub fn collect_ready_items(&mut self, ready_handles: &mut HashSet<WaitlistHandle>) -> (r: Option<Vec<T>>)
        requires
            old(self).wf(),
        ensures
            final(self).wf(),
            ({
                let taken = old(self).items().dom().intersect(old(ready_handles)@);
                &&& final(self).items() == old(self).items().remove_keys(taken)
                &&& final(ready_handles)@ == old(ready_handles)@.difference(taken)
                &&& (taken.len() == 0 <==> r is None)
                &&& (r matches Some(v) ==> v@.len() == taken.len() && spec_collected(v@, old(self).items(), taken))
            }),
    {
        match self.try_collect_ready_items(ready_handles) {
            Ok(v) => v,
            Err(_) => None,
        }
    }

    /// Drops every item whose handle is in `expired_handles`, and removes those
    /// handles from it.
    pub fn remove_expired_items(&mut self, expired_handles: &mut HashSet<WaitlistHandle>)
        requires
            old(self).wf(),
        ensures
            final(self).wf(),
            ({
                let taken = old(self).items().dom().intersect(old(expired_handles)@);
                &&& final(self).items() == old(self).items().remove_keys(taken)
                &&& final(expired_handles)@ == old(expired_handles)@.difference(taken)
            }),
    {
        let _ = self.try_collect_ready_items(expired_handles);
    }
}

/// A moment in time, as the socket layer measures it.
#[verifier::external_type_specification]
#[verifier::external_body]
pub struct ExInstant(Instant);

/// `Instant::now` of naia_socket_shared: the current moment. Nothing is
/// stated of it: it is read from the clock.
#[verifier::external_body]
pub(crate) fn instant_now() -> Instant {
    Instant::now()
}

/// `Instant::elapsed` of naia_socket_shared: the time from `earlier` to
/// `now`. Nothing is stated of it: both moments come from the clock.
#[verifier::external_body]
pub(crate) fn elapsed(earlier: &Instant, now: &Instant) -> std::time::Duration {
    earlier.elapsed(now)
}

/// std's `Duration::as_nanos`: the whole nanoseconds of `duration`.
/// Nothing is stated of it, as a duration is opaque here.
#[verifier::external_body]
pub(crate) fn duration_nanos(duration: &std::time::Duration) -> u128 {
    duration.as_nanos()
}

/// std's `Duration::as_millis`: the whole milliseconds of `duration`.
/// Nothing is stated of it, as a duration is opaque here.
#[verifier::external_body]
fn duration_millis(duration: &std::time::Duration) -> u128 {
    duration.as_millis()
}

/// A moment as an offset from a base moment: later or equal, and by how many
/// nanoseconds, where `true`; earlier, and by how many, where `false`.
pub open spec fn spec_offset(o: (bool, u128)) -> int {
    if o.0 {
        o.1 as int
    } else {
        -(o.1 as int)
    }
}

/// The whole milliseconds from the moment at offset `queued` to the one at
/// offset `now`; none where `now` is not later.
pub open spec fn spec_waited_millis(now: (bool, u128), queued: (bool, u128)) -> u128 {
    let d = spec_offset(now) - spec_offset(queued);
    if d <= 0 {
        0
    } else if d > u128::MAX {
        (u128::MAX / 1000000) as u128
    } else {
        (d / 1000000) as u128
    }
}

/// How long each handle queued at the offsets `queued` has waited at the
/// offset `now`, in whole milliseconds, in the same order.
pub open spec fn spec_waited_times(now: (bool, u128), queued: Seq<(bool, u128)>) -> Seq<u128> {
    Seq::new(queued.len(), |i: int| spec_waited_millis(now, queued[i]))
}

/// The moment `t` as an offset from `base`, read from the two moments.
fn clock_offset(base: &Instant, t: &Instant) -> (bool, u128) {
    let after = duration_nanos(&elapsed(base, t));
    if after > 0 {
        (true, after)
    } else {
        (false, duration_nanos(&elapsed(t, base)))
    }
}

/// The whole milliseconds from the moment at offset `queued` to the one at
/// offset `now`.
fn waited_millis(now: (bool, u128), queued: (bool, u128)) -> (r: u128)
    ensures
        r == spec_waited_millis(now, queued),
{
    let nanos: u128 = if now.0 && queued.0 {
        if now.1 > queued.1 {
            now.1 - queued.1
        } else {
            0
        }
    } else if now.0 && !queued.0 {
        match now.1.checked_add(queued.1) {
            Some(v) => v,
            None => u128::MAX,
        }
    } else if !now.0 && !queued.0 {
        if queued.1 > now.1 {
            queued.1 - now.1
        } else {
            0
        }
    } else {
        0
    };
    proof {
        let d = spec_offset(now) - spec_offset(queued);
        assert(d <= 0 ==> nanos == 0);
        assert(d > u128::MAX ==> nanos == u128::MAX);
        assert(0 < d <= u128::MAX ==> nanos == d);
    }
    nanos / 1000000
}

/// How long a handle may wait for its entities before it expires.
pub const HANDLE_TTL_MILLIS: u128 = 60000;

/// How many of the waiting times `waited`, from the front, reached the time
/// to live: those handles expire, and the first one still younger stops it.
pub open spec fn spec_ttl_prefix(waited: Seq<u128>) -> nat
    decreases waited.len(),
{
    if waited.len() > 0 && waited[0] >= HANDLE_TTL_MILLIS {
        1 + spec_ttl_prefix(waited.drop_first())
    } else {
        0
    }
}

/// The handles to expire are among the waiting times given.
pub proof fn lemma_ttl_prefix_bound(waited: Seq<u128>)
    ensures
        spec_ttl_prefix(waited) <= waited.len(),
    decreases waited.len(),
{
    if waited.len() > 0 && waited[0] >= HANDLE_TTL_MILLIS {
        lemma_ttl_prefix_bound(waited.drop_first());
    }
}

/// The number of handles that expire, given how long each waiting handle
/// waited, oldest first, and how many handles wait.
pub open spec fn spec_expire_count(waited: Seq<u128>, queued: nat) -> int {
    if spec_ttl_prefix(waited) <= queued {
        spec_ttl_prefix(waited) as int
    } else {
        queued as int
    }
}

/// A handle expires exactly when it, and every handle queued before it,
/// waited the time to live or longer, each measured from its own queue
/// time to the same moment `now`.
pub proof fn lemma_expiry_by_own_wait(now: (bool, u128), queued: Seq<(bool, u128)>, i: int)
    requires
        0 <= i < queued.len(),
    ensures
        (i < spec_expire_count(spec_waited_times(now, queued), queued.len())) <==> (forall|j: int|
            0 <= j <= i ==> #[trigger] spec_waited_millis(now, queued[j]) >= HANDLE_TTL_MILLIS),
{
    let w = spec_waited_times(now, queued);
    lemma_ttl_prefix_bound(w);
    lemma_ttl_prefix_own(w, i);
    assert(spec_expire_count(w, queued.len()) == spec_ttl_prefix(w));
    if forall|j: int| 0 <= j <= i ==> #[trigger] spec_waited_millis(now, queued[j]) >= HANDLE_TTL_MILLIS {
        assert forall|j: int| 0 <= j <= i implies #[trigger] w[j] >= HANDLE_TTL_MILLIS by {
            assert(w[j] == spec_waited_millis(now, queued[j]));
        }
    }
    if forall|j: int| 0 <= j <= i ==> #[trigger] w[j] >= HANDLE_TTL_MILLIS {
        assert forall|j: int| 0 <= j <= i implies #[trigger] spec_waited_millis(now, queued[j]) >= HANDLE_TTL_MILLIS by {
            assert(w[j] == spec_waited_millis(now, queued[j]));
        }
    }
}

/// Among waiting times, the one at `i` is within the expiring prefix exactly
/// when it and all before it reached the time to live.
proof fn lemma_ttl_prefix_own(w: Seq<u128>, i: int)
    requires
        0 <= i < w.len(),
    ensures
        (i < spec_ttl_prefix(w)) <==> (forall|j: int| 0 <= j <= i ==> #[trigger] w[j] >= HANDLE_TTL_MILLIS),
    decreases w.len(),
{
    if w[0] >= HANDLE_TTL_MILLIS && i > 0 {
        lemma_ttl_prefix_own(w.drop_first(), i - 1);
        assert forall|j: int| 1 <= j <= i implies w[j] == #[trigger] w.drop_first()[j - 1] by {}
        if !(forall|j: int| 0 <= j <= i ==> #[trigger] w[j] >= HANDLE_TTL_MILLIS) {
            let j = choose|j: int| 0 <= j <= i && !(#[trigger] w[j] >= HANDLE_TTL_MILLIS);
            assert(w.drop_first()[j - 1] == w[j]);
        } else {
            assert forall|j: int| 0 <= j <= i - 1 implies #[trigger] w.drop_first()[j] >= HANDLE_TTL_MILLIS by {
                assert(w.drop_first()[j] == w[j + 1]);
            }
        }
    }
}

/// A set of at most 65535 handles leaves some handle free.
proof fn lemma_some_handle_free(used: Set<WaitlistHandle>)
    requires
        used.finite(),
        used.len() < 65536,
    ensures
        exists|h: WaitlistHandle| !used.contains(h),
{
    if forall|h: WaitlistHandle| used.contains(h) {
        let f = |h: WaitlistHandle| h as int;
        assert(used.map(f) =~= set_int_range(0, 65536)) by {
            assert forall|i: int| set_int_range(0, 65536).contains(i) implies used.map(f).contains(i) by {
                let h = i as WaitlistHandle;
                assert(used.contains(h));
                assert(f(h) == i);
            }
        }
        assert(vstd::relations::injective_on(f, used));
        lemma_map_size(used, set_int_range(0, 65536), f);
        lemma_int_range(0, 65536);
    }
}

/// `index` lists, for each entity, exactly the handles of `waiting` that wait
/// for it, each once.
spec fn spec_index_inverse(index: Map<u16, Seq<WaitlistHandle>>, waiting: Map<WaitlistHandle, Set<u16>>) -> bool {
    &&& forall|e: u16, h: WaitlistHandle| #[trigger]
        spec_listed(index, e, h) ==> waiting.contains_key(h) && waiting[h].contains(e)
    &&& forall|e: u16, h: WaitlistHandle| waiting.contains_key(h) && #[trigger] waiting[h].contains(e) ==> spec_listed(
        index,
        e,
        h,
    )
    &&& spec_index_tidy(index)
}

/// Holds back items until the entities they refer to are all in scope, or
/// until they have waited too long.
pub struct EntityWaitlist {
    next_handle: WaitlistHandle,
    handle_to_required_entities: HashMap<WaitlistHandle, Vec<u16>>,
    waiting_entity_to_handles: HashMap<u16, Vec<WaitlistHandle>>,
    in_scope_entities: HashSet<u16>,
    ready_handles: HashSet<WaitlistHandle>,
    removed_handles: HashSet<WaitlistHandle>,
    handle_ttls: VecDeque<((bool, u128), WaitlistHandle)>,
    clock_base: Instant,
}

impl EntityWaitlist {
    /// The waiting handles, each with the entities it waits for.
    pub closed spec fn waiting(&self) -> Map<WaitlistHandle, Set<u16>> {
        self.handle_to_required_entities@.map_values(|v: Vec<u16>| v@.to_set())
    }

    /// The entities in scope.
    pub closed spec fn in_scope(&self) -> Set<u16> {
        self.in_scope_entities@
    }

    /// The handles whose items may be handed out.
    pub closed spec fn ready(&self) -> Set<WaitlistHandle> {
        self.ready_handles@
    }

    /// The handles that expired, whose items are still to be dropped.
    pub closed spec fn removed(&self) -> Set<WaitlistHandle> {
        self.removed_handles@
    }

    /// The waiting handles, oldest first.
    pub closed spec fn ttl_handles(&self) -> Seq<WaitlistHandle> {
        self.handle_ttls@.map_values(|p: ((bool, u128), WaitlistHandle)| p.1)
    }

    /// When each waiting handle was queued, oldest first, as an offset from
    /// the moment the waitlist was made (see `spec_offset`).
    pub closed spec fn ttl_offsets(&self) -> Seq<(bool, u128)> {
        self.handle_ttls@.map_values(|p: ((bool, u128), WaitlistHandle)| p.0)
    }

    /// For each entity, the handles waiting for it.
    closed spec fn index(&self) -> Map<u16, Seq<WaitlistHandle>> {
        self.waiting_entity_to_handles@.map_values(|v: Vec<WaitlistHandle>| v@)
    }

    /// The handles in use, which a new handle must differ from.
    pub open spec fn in_use(&self) -> Set<WaitlistHandle> {
        self.waiting().dom() + self.ready() + self.removed()
    }

    /// The entity index is the inverse of the waiting handles.
    closed spec fn wf_index(&self) -> bool {
        spec_index_inverse(self.index(), self.waiting())
    }

    pub closed spec fn wf(&self) -> bool {
        &&& self.wf_index()
        &&& self.ready().finite()
        &&& self.removed().finite()
        &&& self.ttl_handles().no_duplicates()
        &&& self.ttl_handles().to_set() == self.waiting().dom()
        &&& self.waiting().dom().disjoint(self.ready())
        &&& self.waiting().dom().disjoint(self.removed())
        &&& forall|h: WaitlistHandle| #[trigger] self.waiting().contains_key(h) ==> !self.waiting()[h].subset_of(
            self.in_scope(),
        )
    }

    pub fn new() -> (r: EntityWaitlist)
        ensures
            r.wf(),
            r.waiting() == Map::<WaitlistHandle, Set<u16>>::empty(),
            r.in_scope() == Set::<u16>::empty(),
            r.ready() == Set::<WaitlistHandle>::empty(),
            r.removed() == Set::<WaitlistHandle>::empty(),
            r.ttl_handles() == Seq::<WaitlistHandle>::empty(),
    {
        let r = EntityWaitlist {
            next_handle: 0,
            handle_to_required_entities: HashMap::new(),
            waiting_entity_to_handles: HashMap::new(),
            in_scope_entities: HashSet::new(),
            ready_handles: HashSet::new(),
            removed_handles: HashSet::new(),
            handle_ttls: VecDeque::new(),
            clock_base: instant_now(),
        };
        proof {
            assert(r.waiting() =~= Map::<WaitlistHandle, Set<u16>>::empty());
            assert(r.index() =~= Map::<u16, Seq<WaitlistHandle>>::empty());
            assert(r.ttl_handles() =~= Seq::<WaitlistHandle>::empty());
            assert(r.ttl_handles().to_set() =~= r.waiting().dom());
        }
        r
    }

    /// Takes `entity` out of scope.
    pub fn remove_entity(&mut self, entity: &RemoteEntity)
        requires
            old(self).wf(),
        ensures
            final(self).wf(),
            final(self).in_scope() == old(self).in_scope().remove(entity.0),
            final(self).waiting() == old(self).waiting(),
            final(self).ready() == old(self).ready(),
            final(self).removed() == old(self).removed(),
            final(self).ttl_handles() == old(self).ttl_handles(),
    {
        self.in_scope_entities.remove(&entity.0);
        proof {
            assert(self.index() == old(self).index());
            assert(self.waiting() == old(self).waiting());
            assert(self.wf_index());
            assert(self.ready().finite());
            assert(self.ttl_handles() == old(self).ttl_handles());
            assert forall|h: WaitlistHandle| #[trigger] self.waiting().contains_key(h) implies !self.waiting()[h].subset_of(
                self.in_scope(),
            ) by {
                assert(!old(self).waiting()[h].subset_of(old(self).in_scope()));
            }
        }
    }

    /// A handle that is not in use, the first such from the next new one on.
    fn generate_handle(&mut self) -> (r: WaitlistHandle)
        requires
            old(self).wf(),
            old(self).in_use().len() < 65536,
        ensures
            !old(self).in_use().contains(r),
            *final(self) == (EntityWaitlist { next_handle: final(self).next_handle, ..*old(self) }),
    {
        proof {
            assert(self.waiting().dom() =~= self.handle_to_required_entities@.dom());
            assert(self.in_use().finite());
            lemma_some_handle_free(self.in_use());
        }
        let start: u32 = self.next_handle as u32;
        let mut tried: u32 = 0;
        while tried < 65536
            invariant
                self == old(self),
                start == self.next_handle as u32,
                tried <= 65536,
                forall|k: u32| k < tried ==> #[trigger] self.in_use().contains(((start + k) % 65536) as u16),
            decreases 65536 - tried,
        {
            let candidate: u16 = ((start + tried) % 65536) as u16;
            if !self.handle_to_required_entities.contains_key(&candidate) && !self.ready_handles.contains(&candidate)
                && !self.removed_handles.contains(&candidate) {
                self.next_handle = candidate.wrapping_add(1);
                return candidate;
            }
            tried = tried + 1;
        }
        proof {
            let h = choose|h: WaitlistHandle| !self.in_use().contains(h);
            let k: u32 = ((h as int - start as int + 65536) % 65536) as u32;
            assert(((start + k) % 65536) as u16 == h);
            assert(self.in_use().contains(((start + k) % 65536) as u16));
        }
        0
    }
}

/// `index` has `handle` listed under `entity`.
spec fn spec_listed(index: Map<u16, Seq<WaitlistHandle>>, entity: u16, handle: WaitlistHandle) -> bool {
    index.contains_key(entity) && index[entity].contains(handle)
}

proof fn lemma_inverse_at(
    index: Map<u16, Seq<WaitlistHandle>>,
    waiting: Map<WaitlistHandle, Set<u16>>,
    e: u16,
    h: WaitlistHandle,
)
    requires
        spec_index_inverse(index, waiting),
    ensures
        spec_listed(index, e, h) <==> (waiting.contains_key(h) && waiting[h].contains(e)),
{
    if waiting.contains_key(h) {
        assert(waiting[h].contains(e) ==> spec_listed(index, e, h));
    }
}

/// Every list of `index` is non-empty and names each handle once.
spec fn spec_index_tidy(index: Map<u16, Seq<WaitlistHandle>>) -> bool {
    forall|e: u16| #[trigger] index.contains_key(e) ==> index[e].no_duplicates() && index[e].len() > 0
}

/// `after` is `before` without `h`: its one occurrence taken out, if any.
pub open spec fn spec_seq_without(before: Seq<WaitlistHandle>, h: WaitlistHandle, after: Seq<WaitlistHandle>) -> bool {
    ||| (!before.contains(h) && after == before)
    ||| exists|i: int| 0 <= i < before.len() && before[i] == h && #[trigger] before.remove(i) == after
}

impl EntityWaitlist {
    /// Takes `handle` off the list of `entity`, dropping the list once empty.
    fn unindex(&mut self, entity: u16, handle: WaitlistHandle)
        requires
            spec_index_tidy(old(self).index()),
        ensures
            spec_index_tidy(final(self).index()),
            forall|e: u16, x: WaitlistHandle|
                #![trigger spec_listed(final(self).index(), e, x)]
                spec_listed(final(self).index(), e, x) <==> (spec_listed(old(self).index(), e, x) && !(e == entity
                    && x == handle)),
            final(self).handle_to_required_entities == old(self).handle_to_required_entities,
            final(self).in_scope_entities == old(self).in_scope_entities,
            final(self).ready_handles == old(self).ready_handles,
            final(self).removed_handles == old(self).removed_handles,
            final(self).handle_ttls == old(self).handle_ttls,
            final(self).next_handle == old(self).next_handle,
    {
        let ghost index0 = self.index();
        match self.waiting_entity_to_handles.remove(&entity) {
            None => {
                proof {
                    assert(self.index() =~= index0);
                }
            },
            Some(mut list) => {
                let ghost l0 = list@;
                proof {
                    assert(index0.contains_key(entity));
                    assert(l0 == index0[entity]);
                }
                let mut i: usize = 0;
                while i < list.len() && list[i] != handle
                    invariant
                        list@ == l0,
                        i <= list.len(),
                        forall|j: int| 0 <= j < i ==> list@[j] != handle,
                    decreases list.len() - i,
                {
                    i = i + 1;
                }
                if i < list.len() {
                    list.remove(i);
                    proof {
                        assert forall|x: WaitlistHandle| list@.contains(x) <==> (l0.contains(x) && x != handle) by {
                            if list@.contains(x) {
                                let j = choose|j: int| 0 <= j < list@.len() && list@[j] == x;
                                if j < i {
                                    assert(l0[j] == x);
                                } else {
                                    assert(l0[j + 1] == x);
                                    assert(l0[i as int] == handle);
                                }
                            }
                            if l0.contains(x) && x != handle {
                                let j = choose|j: int| 0 <= j < l0.len() && l0[j] == x;
                                if j < i {
                                    assert(list@[j] == x);
                                } else {
                                    assert(j != i);
                                    assert(list@[j - 1] == x);
                                }
                            }
                        }
                        assert(list@.no_duplicates()) by {
                            assert forall|a: int, b: int| 0 <= a < b < list@.len() implies list@[a] != list@[b] by {
                                let a2 = if a < i { a } else { a + 1 };
                                let b2 = if b < i { b } else { b + 1 };
                                assert(list@[a] == l0[a2]);
                                assert(list@[b] == l0[b2]);
                            }
                        }
                    }
                } else {
                    proof {
                        assert(!l0.contains(handle));
                        assert(list@.no_duplicates());
                    }
                }
                if list.len() > 0 {
                    self.waiting_entity_to_handles.insert(entity, list);
                }
                proof {
                    assert(list@.no_duplicates());
                    assert forall|e: u16| #[trigger] self.index().contains_key(e) implies self.index()[e].no_duplicates()
                        && self.index()[e].len() > 0 by {
                        if e != entity {
                            assert(index0.contains_key(e));
                            assert(self.index()[e] == index0[e]);
                        } else {
                            assert(self.index()[e] == list@);
                        }
                    }
                    assert forall|e: u16, x: WaitlistHandle|
                        #![trigger spec_listed(self.index(), e, x)]
                        spec_listed(self.index(), e, x) <==> (spec_listed(index0, e, x) && !(e == entity
                            && x == handle)) by {
                        if e != entity {
                            assert(self.index().contains_key(e) == index0.contains_key(e));
                            if index0.contains_key(e) {
                                assert(self.index()[e] == index0[e]);
                            }
                        }
                    }
                }
            },
        }
    }
}

impl EntityWaitlist {
    /// Takes `handle` off the expiry queue, if it is there.
    fn unqueue_ttl(&mut self, handle: WaitlistHandle)
        requires
            old(self).ttl_handles().no_duplicates(),
        ensures
            final(self).ttl_handles().no_duplicates(),
            spec_seq_without(old(self).ttl_handles(), handle, final(self).ttl_handles()),
            final(self).ttl_handles().to_set() == old(self).ttl_handles().to_set().remove(handle),
            final(self).handle_to_required_entities == old(self).handle_to_required_entities,
            final(self).waiting_entity_to_handles == old(self).waiting_entity_to_handles,
            final(self).in_scope_entities == old(self).in_scope_entities,
            final(self).ready_handles == old(self).ready_handles,
            final(self).removed_handles == old(self).removed_handles,
            final(self).next_handle == old(self).next_handle,
    {
        let ghost t0 = self.ttl_handles();
        let mut i: usize = 0;
        while i < self.handle_ttls.len() && self.handle_ttls[i].1 != handle
            invariant
                self == old(self),
                t0 == self.ttl_handles(),
                i <= self.handle_ttls@.len(),
                forall|j: int| 0 <= j < i ==> t0[j] != handle,
            decreases self.handle_ttls@.len() - i,
        {
            i = i + 1;
        }
        if i < self.handle_ttls.len() {
            let _ = self.handle_ttls.remove(i);
            proof {
                assert(t0[i as int] == handle);
                assert(self.ttl_handles() =~= t0.remove(i as int));
                assert(self.ttl_handles().no_duplicates()) by {
                    assert forall|a: int, b: int| 0 <= a < b < self.ttl_handles().len() implies self.ttl_handles()[a]
                        != self.ttl_handles()[b] by {
                        let a2 = if a < i { a } else { a + 1 };
                        let b2 = if b < i { b } else { b + 1 };
                        assert(self.ttl_handles()[a] == t0[a2]);
                        assert(self.ttl_handles()[b] == t0[b2]);
                    }
                }
                assert(self.ttl_handles().to_set() =~= t0.to_set().remove(handle)) by {
                    assert forall|x: WaitlistHandle| self.ttl_handles().contains(x) <==> (t0.contains(x) && x != handle) by {
                        if self.ttl_handles().contains(x) {
                            let j = choose|j: int| 0 <= j < self.ttl_handles().len() && self.ttl_handles()[j] == x;
                            if j < i {
                                assert(t0[j] == x);
                            } else {
                                assert(t0[j + 1] == x);
                            }
                        }
                        if t0.contains(x) && x != handle {
                            let j = choose|j: int| 0 <= j < t0.len() && t0[j] == x;
                            if j < i {
                                assert(self.ttl_handles()[j] == x);
                            } else {
                                assert(j != i);
                                assert(self.ttl_handles()[j - 1] == x);
                            }
                        }
                    }
                }
                assert(spec_seq_without(t0, handle, self.ttl_handles()));
            }
        } else {
            proof {
                assert(!t0.contains(handle));
                assert(t0.to_set() =~= t0.to_set().remove(handle));
            }
        }
    }

    /// Stops `handle` waiting: takes it off the expiry queue, the waiting
    /// handles and the entity lists. Fails, changing only the queue, where
    /// `handle` is not waiting.
    fn remove_waiting(&mut self, handle: WaitlistHandle) -> (r: Result<(), RemoteWorldError>)
        requires
            spec_index_inverse(old(self).index(), old(self).waiting()),
            old(self).ttl_handles().no_duplicates(),
        ensures
            spec_index_inverse(final(self).index(), final(self).waiting()),
            final(self).ttl_handles().no_duplicates(),
            spec_seq_without(old(self).ttl_handles(), handle, final(self).ttl_handles()),
            final(self).ttl_handles().to_set() == old(self).ttl_handles().to_set().remove(handle),
            !old(self).waiting().contains_key(handle) ==> r == Err::<(), RemoteWorldError>(
                RemoteWorldError::WaitlistHandleMissing { handle },
            ) && final(self).waiting() == old(self).waiting(),
            old(self).waiting().contains_key(handle) ==> r is Ok && final(self).waiting() == old(self).waiting().remove(
                handle,
            ),
            final(self).in_scope() == old(self).in_scope(),
            final(self).ready() == old(self).ready(),
            final(self).removed() == old(self).removed(),
            final(self).next_handle == old(self).next_handle,
    {
        self.unqueue_ttl(handle);
        let ghost ttl1 = self.ttl_handles();
        let ghost waiting0 = self.waiting();
        let ghost index0 = self.index();
        let entities = match self.handle_to_required_entities.remove(&handle) {
            Some(entities) => entities,
            None => {
                proof {
                    assert(self.waiting() == old(self).waiting());
                    assert(self.index() == old(self).index());
                }
                return Err(RemoteWorldError::WaitlistHandleMissing { handle });
            },
        };
        proof {
            assert(self.waiting() =~= waiting0.remove(handle));
            assert(waiting0[handle] == entities@.to_set());
        }
        let mut i: usize = 0;
        while i < entities.len()
            invariant
                self.waiting() == waiting0.remove(handle),
                waiting0.contains_key(handle),
                waiting0[handle] == entities@.to_set(),
                spec_index_inverse(index0, waiting0),
                spec_index_tidy(self.index()),
                i <= entities@.len(),
                forall|e: u16, x: WaitlistHandle|
                    #![trigger spec_listed(self.index(), e, x)]
                    spec_listed(self.index(), e, x) <==> (spec_listed(index0, e, x) && !(x == handle
                        && entities@.take(i as int).contains(e))),
                self.ttl_handles() == ttl1,
                ttl1.no_duplicates(),
                spec_seq_without(old(self).ttl_handles(), handle, ttl1),
                ttl1.to_set() == old(self).ttl_handles().to_set().remove(handle),
                self.in_scope() == old(self).in_scope(),
                self.ready() == old(self).ready(),
                self.removed() == old(self).removed(),
                self.next_handle == old(self).next_handle,
            decreases entities@.len() - i,
        {
            let e = entities[i];
            let ghost prev = self.index();
            self.unindex(e, handle);
            proof {
                assert(entities@.take(i + 1) =~= entities@.take(i as int).push(e));
                assert forall|e2: u16, x: WaitlistHandle|
                    #![trigger spec_listed(self.index(), e2, x)]
                    spec_listed(self.index(), e2, x) <==> (spec_listed(index0, e2, x) && !(x == handle
                        && entities@.take(i + 1).contains(e2))) by {
                    assert(spec_listed(prev, e2, x) <==> (spec_listed(index0, e2, x) && !(x == handle
                        && entities@.take(i as int).contains(e2))));
                    let t0 = entities@.take(i as int);
                    let t1 = entities@.take(i + 1);
                    assert(t1 == t0.push(e));
                    assert(t1.contains(e2) <==> (t0.contains(e2) || e2 == e)) by {
                        if t1.contains(e2) && e2 != e {
                            let j = choose|j: int| 0 <= j < t1.len() && t1[j] == e2;
                            assert(t0[j] == e2);
                        }
                        if t0.contains(e2) {
                            let j = choose|j: int| 0 <= j < t0.len() && t0[j] == e2;
                            assert(t1[j] == e2);
                        }
                        if e2 == e {
                            assert(t1[t0.len() as int] == e);
                        }
                    }
                }
            }
            i = i + 1;
        }
        proof {
            assert(entities@.take(entities@.len() as int) =~= entities@);
            let index1 = self.index();
            let waiting1 = self.waiting();
            assert forall|e2: u16, x: WaitlistHandle|
                #![trigger spec_listed(index1, e2, x)]
                #![trigger waiting1[x].contains(e2)]
                spec_listed(index1, e2, x) <==> (waiting1.contains_key(x) && waiting1[x].contains(e2)) by {
                assert(spec_listed(index1, e2, x) <==> (spec_listed(index0, e2, x) && !(x == handle
                    && entities@.contains(e2))));
                lemma_inverse_at(index0, waiting0, e2, x);
                if x == handle {
                    if spec_listed(index0, e2, x) {
                        assert(waiting0[x].contains(e2));
                        assert(entities@.to_set().contains(e2));
                    }
                }
            }
        }
        Ok(())
    }
}

impl EntityWaitlist {
    /// Stops `handle` waiting, where it waits; fails, changing nothing, where
    /// it does not.
    pub fn try_remove_waiting_handle(&mut self, handle: &WaitlistHandle) -> (r: Result<(), RemoteWorldError>)
        requires
            old(self).wf(),
        ensures
            final(self).wf(),
            !old(self).waiting().contains_key(*handle) ==> r == Err::<(), RemoteWorldError>(
                RemoteWorldError::WaitlistHandleMissing { handle: *handle },
            ) && final(self).waiting() == old(self).waiting() && final(self).ttl_handles() == old(self).ttl_handles(),
            old(self).waiting().contains_key(*handle) ==> r is Ok && final(self).waiting() == old(self).waiting().remove(
                *handle,
            ) && spec_seq_without(old(self).ttl_handles(), *handle, final(self).ttl_handles()),
            final(self).in_scope() == old(self).in_scope(),
            final(self).ready() == old(self).ready(),
            final(self).removed() == old(self).removed(),
    {
        let r = self.remove_waiting(*handle);
        proof {
            if !old(self).waiting().contains_key(*handle) {
                assert(!old(self).ttl_handles().to_set().contains(*handle));
                assert(!old(self).ttl_handles().contains(*handle));
            }
            assert(self.ttl_handles().to_set() =~= self.waiting().dom());
            assert forall|h: WaitlistHandle| #[trigger] self.waiting().contains_key(h) implies !self.waiting()[h].subset_of(
                self.in_scope(),
            ) by {
                assert(old(self).waiting().contains_key(h));
            }
        }
        r
    }

    /// Stops `handle` waiting; it must be waiting.
    pub fn remove_waiting_handle(&mut self, handle: &WaitlistHandle)
        requires
            old(self).wf(),
            old(self).waiting().contains_key(*handle),
        ensures
            final(self).wf(),
            final(self).waiting() == old(self).waiting().remove(*handle),
            spec_seq_without(old(self).ttl_handles(), *handle, final(self).ttl_handles()),
            final(self).in_scope() == old(self).in_scope(),
            final(self).ready() == old(self).ready(),
            final(self).removed() == old(self).removed(),
    {
        let _ = self.try_remove_waiting_handle(handle);
    }
}

/// Whether `list` holds `h`.
fn list_contains(list: &Vec<WaitlistHandle>, h: WaitlistHandle) -> (r: bool)
    ensures
        r == list@.contains(h),
{
    let mut i: usize = 0;
    while i < list.len()
        invariant
            i <= list@.len(),
            forall|j: int| 0 <= j < i ==> list@[j] != h,
        decreases list@.len() - i,
    {
        if list[i] == h {
            return true;
        }
        i = i + 1;
    }
    false
}

/// The numbers of `entities`, in order.
fn entity_ids(entities: &Vec<RemoteEntity>) -> (r: Vec<u16>)
    ensures
        r@ == entities@.map_values(|e: RemoteEntity| e.0),
{
    let mut out: Vec<u16> = Vec::new();
    let mut i: usize = 0;
    while i < entities.len()
        invariant
            i <= entities@.len(),
            out@ == entities@.take(i as int).map_values(|e: RemoteEntity| e.0),
        decreases entities@.len() - i,
    {
        out.push(entities[i].0);
        proof {
            assert(entities@.take(i + 1) =~= entities@.take(i as int).push(entities@[i as int]));
            assert(out@ =~= entities@.take(i + 1).map_values(|e: RemoteEntity| e.0));
        }
        i = i + 1;
    }
    proof {
        assert(entities@.take(entities@.len() as int) =~= entities@);
    }
    out
}

impl EntityWaitlist {
    /// Whether every entity of `ids` is in scope.
    fn all_in_scope(&self, ids: &Vec<u16>) -> (r: bool)
        ensures
            r == ids@.to_set().subset_of(self.in_scope()),
    {
        let mut i: usize = 0;
        while i < ids.len()
            invariant
                i <= ids@.len(),
                forall|j: int| 0 <= j < i ==> self.in_scope().contains(#[trigger] ids@[j]),
            decreases ids@.len() - i,
        {
            if !self.in_scope_entities.contains(&ids[i]) {
                proof {
                    assert(ids@.to_set().contains(ids@[i as int]));
                }
                return false;
            }
            i = i + 1;
        }
        proof {
            assert forall|e: u16| ids@.to_set().contains(e) implies self.in_scope().contains(e) by {
                let j = choose|j: int| 0 <= j < ids@.len() && ids@[j] == e;
            }
        }
        true
    }

    /// Lists `handle` under `entity`, where it is not listed yet.
    fn index_add(&mut self, entity: u16, handle: WaitlistHandle)
        requires
            spec_index_tidy(old(self).index()),
        ensures
            spec_index_tidy(final(self).index()),
            forall|e: u16, x: WaitlistHandle|
                #![trigger spec_listed(final(self).index(), e, x)]
                spec_listed(final(self).index(), e, x) <==> (spec_listed(old(self).index(), e, x) || (e == entity
                    && x == handle)),
            final(self).handle_to_required_entities == old(self).handle_to_required_entities,
            final(self).in_scope_entities == old(self).in_scope_entities,
            final(self).ready_handles == old(self).ready_handles,
            final(self).removed_handles == old(self).removed_handles,
            final(self).handle_ttls == old(self).handle_ttls,
            final(self).next_handle == old(self).next_handle,
    {
        let ghost index0 = self.index();
        let list = match self.waiting_entity_to_handles.remove(&entity) {
            Some(mut list) => {
                proof {
                    assert(index0.contains_key(entity) && list@ == index0[entity]);
                }
                if !list_contains(&list, handle) {
                    let ghost l0 = list@;
                    list.push(handle);
                    proof {
                        assert(list@ == l0.push(handle));
                        assert(list@.no_duplicates()) by {
                            assert forall|a: int, b: int| 0 <= a < b < list@.len() implies list@[a] != list@[b] by {
                                if b == l0.len() {
                                    assert(l0.contains(list@[a]) ==> list@[a] != handle);
                                    assert(l0[a] == list@[a]);
                                }
                            }
                        }
                        assert forall|x: WaitlistHandle| list@.contains(x) <==> (l0.contains(x) || x == handle) by {
                            if list@.contains(x) && x != handle {
                                let j = choose|j: int| 0 <= j < list@.len() && list@[j] == x;
                                assert(l0[j] == x);
                            }
                            if l0.contains(x) {
                                let j = choose|j: int| 0 <= j < l0.len() && l0[j] == x;
                                assert(list@[j] == x);
                            }
                            if x == handle {
                                assert(list@[l0.len() as int] == handle);
                            }
                        }
                    }
                }
                list
            },
            None => {
                let mut list: Vec<WaitlistHandle> = Vec::new();
                list.push(handle);
                proof {
                    assert(list@ == seq![handle]);
                    assert(list@.contains(handle)) by {
                        assert(list@[0] == handle);
                    }
                    assert forall|x: WaitlistHandle| list@.contains(x) implies x == handle by {}
                }
                list
            },
        };
        self.waiting_entity_to_handles.insert(entity, list);
        proof {
            assert forall|e: u16| #[trigger] self.index().contains_key(e) implies self.index()[e].no_duplicates()
                && self.index()[e].len() > 0 by {
                if e != entity {
                    assert(index0.contains_key(e));
                    assert(self.index()[e] == index0[e]);
                }
            }
            assert forall|e: u16, x: WaitlistHandle|
                #![trigger spec_listed(self.index(), e, x)]
                spec_listed(self.index(), e, x) <==> (spec_listed(index0, e, x) || (e == entity && x == handle)) by {
                if e != entity {
                    assert(self.index().contains_key(e) == index0.contains_key(e));
                    if index0.contains_key(e) {
                        assert(self.index()[e] == index0[e]);
                    }
                }
            }
        }
    }
}

/// The numbers of `entities`, as a set.
pub open spec fn spec_entity_set(entities: Seq<RemoteEntity>) -> Set<u16> {
    entities.map_values(|e: RemoteEntity| e.0).to_set()
}

impl EntityWaitlist {
    /// Holds `item` in `waitlist_store` under a new handle, which it returns:
    /// the handle is ready at once where every entity of `entities` is in
    /// scope, and otherwise waits for them, its expiry counted from now.
    pub fn queue<T>(
        &mut self,
        entities: &Vec<RemoteEntity>,
        waitlist_store: &mut WaitlistStore<T>,
        item: T,
    ) -> (r: WaitlistHandle)
        requires
            old(self).wf(),
            old(waitlist_store).wf(),
            old(self).in_use().len() < 65536,
        ensures
            final(self).wf(),
            final(waitlist_store).wf(),
            !old(self).in_use().contains(r),
            final(waitlist_store).items() == old(waitlist_store).items().insert(r, item),
            final(self).in_scope() == old(self).in_scope(),
            final(self).removed() == old(self).removed(),
            spec_entity_set(entities@).subset_of(old(self).in_scope()) ==> {
                &&& final(self).ready() == old(self).ready().insert(r)
                &&& final(self).waiting() == old(self).waiting()
                &&& final(self).ttl_handles() == old(self).ttl_handles()
            },
            !spec_entity_set(entities@).subset_of(old(self).in_scope()) ==> {
                &&& final(self).ready() == old(self).ready()
                &&& final(self).waiting() == old(self).waiting().insert(r, spec_entity_set(entities@))
                &&& final(self).ttl_handles() == old(self).ttl_handles().push(r)
            },
    {
        let new_handle = self.generate_handle();
        let ids = entity_ids(entities);
        proof {
            assert(ids@.to_set() == spec_entity_set(entities@));
        }
        if self.all_in_scope(&ids) {
            waitlist_store.queue(new_handle, item);
            self.ready_handles.insert(new_handle);
            proof {
                assert(self.waiting() == old(self).waiting());
                assert(self.index() == old(self).index());
                assert(self.ttl_handles() == old(self).ttl_handles());
                assert(self.ttl_handles().to_set() == self.waiting().dom());
                assert(!self.waiting().contains_key(new_handle));
                assert forall|h: WaitlistHandle| #[trigger] self.waiting().contains_key(h) implies !self.waiting()[h].subset_of(
                    self.in_scope(),
                ) by {
                    assert(old(self).waiting().contains_key(h));
                }
            }
            return new_handle;
        }
        let ghost index0 = self.index();
        let ghost waiting0 = self.waiting();
        proof {
            assert(!waiting0.contains_key(new_handle));
            assert forall|e: u16| !spec_listed(index0, e, new_handle) by {
                lemma_inverse_at(index0, waiting0, e, new_handle);
            }
        }
        let mut i: usize = 0;
        while i < ids.len()
            invariant
                i <= ids@.len(),
                spec_index_tidy(self.index()),
                spec_index_inverse(index0, waiting0),
                forall|e: u16| !spec_listed(index0, e, new_handle),
                forall|e: u16, x: WaitlistHandle|
                    #![trigger spec_listed(self.index(), e, x)]
                    spec_listed(self.index(), e, x) <==> (spec_listed(index0, e, x) || (x == new_handle
                        && ids@.take(i as int).contains(e))),
                self.waiting() == waiting0,
                waiting0 == old(self).waiting(),
                self.in_scope() == old(self).in_scope(),
                self.ready() == old(self).ready(),
                self.removed() == old(self).removed(),
                self.ttl_handles() == old(self).ttl_handles(),
            decreases ids@.len() - i,
        {
            let e = ids[i];
            let ghost prev = self.index();
            self.index_add(e, new_handle);
            proof {
                let t0 = ids@.take(i as int);
                let t1 = ids@.take(i + 1);
                assert(t1 == t0.push(e));
                assert forall|e2: u16, x: WaitlistHandle|
                    #![trigger spec_listed(self.index(), e2, x)]
                    spec_listed(self.index(), e2, x) <==> (spec_listed(index0, e2, x) || (x == new_handle
                        && t1.contains(e2))) by {
                    assert(spec_listed(prev, e2, x) <==> (spec_listed(index0, e2, x) || (x == new_handle
                        && t0.contains(e2))));
                    assert(t1.contains(e2) <==> (t0.contains(e2) || e2 == e)) by {
                        if t1.contains(e2) && e2 != e {
                            let j = choose|j: int| 0 <= j < t1.len() && t1[j] == e2;
                            assert(t0[j] == e2);
                        }
                        if t0.contains(e2) {
                            let j = choose|j: int| 0 <= j < t0.len() && t0[j] == e2;
                            assert(t1[j] == e2);
                        }
                        if e2 == e {
                            assert(t1[t0.len() as int] == e);
                        }
                    }
                }
            }
            i = i + 1;
        }
        let now = instant_now();
        let queued_at = clock_offset(&self.clock_base, &now);
        self.handle_ttls.push_back((queued_at, new_handle));
        self.handle_to_required_entities.insert(new_handle, ids);
        waitlist_store.queue(new_handle, item);
        proof {
            assert(ids@.take(ids@.len() as int) =~= ids@);
            assert(self.waiting() =~= waiting0.insert(new_handle, spec_entity_set(entities@)));
            assert(self.ttl_handles() =~= old(self).ttl_handles().push(new_handle));
            let index1 = self.index();
            let waiting1 = self.waiting();
            assert forall|e2: u16, x: WaitlistHandle| #[trigger] spec_listed(index1, e2, x) implies waiting1.contains_key(x)
                && waiting1[x].contains(e2) by {
                lemma_inverse_at(index0, waiting0, e2, x);
                if x == new_handle && ids@.contains(e2) {
                    assert(ids@.to_set().contains(e2));
                }
            }
            assert forall|e2: u16, x: WaitlistHandle| waiting1.contains_key(x) && #[trigger] waiting1[x].contains(e2)
                implies spec_listed(index1, e2, x) by {
                lemma_inverse_at(index0, waiting0, e2, x);
                if x == new_handle {
                    assert(ids@.to_set().contains(e2));
                    assert(ids@.contains(e2));
                }
            }
            assert(!old(self).ttl_handles().contains(new_handle)) by {
                assert(!old(self).ttl_handles().to_set().contains(new_handle));
            }
            assert(self.ttl_handles().no_duplicates()) by {
                let t = old(self).ttl_handles();
                assert forall|a: int, b: int| 0 <= a < b < self.ttl_handles().len() implies self.ttl_handles()[a]
                    != self.ttl_handles()[b] by {
                    if b == t.len() {
                        assert(t[a] == self.ttl_handles()[a]);
                        assert(t.contains(t[a]));
                    }
                }
            }
            old(self).ttl_handles().lemma_push_to_set_commute(new_handle);
            assert(self.ttl_handles().to_set() =~= self.waiting().dom());
            assert forall|h: WaitlistHandle| #[trigger] self.waiting().contains_key(h) implies !self.waiting()[h].subset_of(
                self.in_scope(),
            ) by {
                if h != new_handle {
                    assert(old(self).waiting().contains_key(h));
                }
            }
        }
        new_handle
    }
}

/// The waiting handles of `waiting` all of whose entities are in `scope`.
pub open spec fn spec_now_ready(waiting: Map<WaitlistHandle, Set<u16>>, scope: Set<u16>) -> Set<WaitlistHandle> {
    waiting.dom().filter(|h: WaitlistHandle| waiting[h].subset_of(scope))
}

impl EntityWaitlist {
    /// Puts `entity` in scope: every handle whose entities are now all in
    /// scope stops waiting and becomes ready.
    pub fn add_entity(&mut self, entity: &RemoteEntity)
        requires
            old(self).wf(),
        ensures
            final(self).wf(),
            final(self).in_scope() == old(self).in_scope().insert(entity.0),
            ({
                let moved = spec_now_ready(old(self).waiting(), old(self).in_scope().insert(entity.0));
                &&& final(self).ready() == old(self).ready() + moved
                &&& final(self).waiting() == old(self).waiting().remove_keys(moved)
                &&& final(self).ttl_handles().to_set() == old(self).ttl_handles().to_set() - moved
            }),
            final(self).removed() == old(self).removed(),
    {
        let e = entity.0;
        self.in_scope_entities.insert(e);
        let ghost scope1 = self.in_scope();
        let ghost waiting0 = self.waiting();
        let ghost index0 = self.index();
        let ghost moved = spec_now_ready(waiting0, scope1);
        proof {
            assert(self.index() == old(self).index());
            assert(waiting0 == old(self).waiting());
        }
        let mut outgoing: Vec<WaitlistHandle> = Vec::new();
        match self.waiting_entity_to_handles.get(&e) {
            Some(list) => {
                proof {
                    assert(index0.contains_key(e) && list@ == index0[e]);
                }
                let mut i: usize = 0;
                while i < list.len()
                    invariant
                        self.in_scope() == scope1,
                        self.waiting() == waiting0,
                        self.index() == index0,
                        index0.contains_key(e) && list@ == index0[e],
                        spec_index_inverse(index0, waiting0),
                        moved == spec_now_ready(waiting0, scope1),
                        i <= list@.len(),
                        outgoing@.no_duplicates(),
                        outgoing@.to_set() == list@.take(i as int).to_set().intersect(moved),
                    decreases list@.len() - i,
                {
                    let h = list[i];
                    proof {
                        assert(list@.contains(h)) by {
                            assert(list@[i as int] == h);
                        }
                        lemma_inverse_at(index0, waiting0, e, h);
                    }
                    let ghost before = outgoing@;
                    let ghost t0 = list@.take(i as int);
                    let ghost t1 = list@.take(i + 1);
                    proof {
                        assert(t1 == t0.push(h));
                        t0.lemma_push_to_set_commute(h);
                        assert(!t0.contains(h)) by {
                            if t0.contains(h) {
                                let j = choose|j: int| 0 <= j < t0.len() && t0[j] == h;
                                assert(list@[j] == list@[i as int]);
                            }
                        }
                    }
                    match self.handle_to_required_entities.get(&h) {
                        Some(ents) => {
                            proof {
                                assert(waiting0[h] == ents@.to_set());
                            }
                            if self.all_in_scope(ents) {
                                proof {
                                    assert(moved.contains(h));
                                    assert(!before.to_set().contains(h));
                                }
                                outgoing.push(h);
                                proof {
                                    before.lemma_push_to_set_commute(h);
                                    assert(outgoing@.to_set() =~= t1.to_set().intersect(moved));
                                    assert(outgoing@.no_duplicates()) by {
                                        assert forall|a: int, b: int| 0 <= a < b < outgoing@.len() implies outgoing@[a]
                                            != outgoing@[b] by {
                                            if b == before.len() {
                                                assert(before[a] == outgoing@[a]);
                                                assert(before.to_set().contains(before[a]));
                                            }
                                        }
                                    }
                                }
                            } else {
                                proof {
                                    assert(!moved.contains(h));
                                    assert(outgoing@.to_set() =~= t1.to_set().intersect(moved));
                                }
                            }
                        },
                        None => {
                            proof {
                                assert(waiting0.contains_key(h));
                                assert(self.handle_to_required_entities@.contains_key(h));
                            }
                        },
                    }
                    i = i + 1;
                }
                proof {
                    assert(list@.take(list@.len() as int) =~= list@);
                }
            },
            None => {},
        }
        proof {
            assert(outgoing@.to_set() =~= moved) by {
                assert forall|h: WaitlistHandle| moved.contains(h) implies outgoing@.to_set().contains(h) by {
                    assert(waiting0.contains_key(h) && waiting0[h].subset_of(scope1));
                    assert(!waiting0[h].subset_of(old(self).in_scope()));
                    let x = choose|x: u16| waiting0[h].contains(x) && !old(self).in_scope().contains(x);
                    assert(x == e);
                    assert(waiting0[h].contains(e));
                    lemma_inverse_at(index0, waiting0, e, h);
                    assert(index0.contains_key(e) && index0[e].contains(h));
                    assert(index0[e].to_set().contains(h));
                }
            }
        }
        let ghost ready1 = self.ready();
        let ghost ttlset1 = self.ttl_handles().to_set();
        let mut j: usize = 0;
        while j < outgoing.len()
            invariant
                j <= outgoing@.len(),
                outgoing@.no_duplicates(),
                outgoing@.to_set() == moved,
                moved == spec_now_ready(waiting0, scope1),
                spec_index_inverse(self.index(), self.waiting()),
                self.ttl_handles().no_duplicates(),
                self.waiting() == waiting0.remove_keys(outgoing@.take(j as int).to_set()),
                self.ttl_handles().to_set() == ttlset1 - outgoing@.take(j as int).to_set(),
                self.ready() == ready1 + outgoing@.take(j as int).to_set(),
                self.ready().finite(),
                self.in_scope() == scope1,
                self.removed() == old(self).removed(),
            decreases outgoing@.len() - j,
        {
            let h = outgoing[j];
            let ghost w = self.waiting();
            let ghost t = self.ttl_handles().to_set();
            proof {
                assert(outgoing@.to_set().contains(h)) by {
                    assert(outgoing@[j as int] == h);
                }
                assert(moved.contains(h));
                assert(!outgoing@.take(j as int).contains(h)) by {
                    if outgoing@.take(j as int).contains(h) {
                        let k = choose|k: int| 0 <= k < j && outgoing@.take(j as int)[k] == h;
                        assert(outgoing@[k] == outgoing@[j as int]);
                    }
                }
                assert(w.contains_key(h));
            }
            self.ready_handles.insert(h);
            let _ = self.remove_waiting(h);
            proof {
                let s0 = outgoing@.take(j as int);
                let s1 = outgoing@.take(j + 1);
                assert(s1 == s0.push(h));
                s0.lemma_push_to_set_commute(h);
                assert(self.waiting() =~= waiting0.remove_keys(s1.to_set()));
                assert(self.ttl_handles().to_set() =~= ttlset1 - s1.to_set());
                assert(self.ready() =~= ready1 + s1.to_set());
            }
            j = j + 1;
        }
        proof {
            assert(outgoing@.take(outgoing@.len() as int) =~= outgoing@);
            assert(ttlset1 == old(self).waiting().dom());
            assert(self.ttl_handles().to_set() =~= self.waiting().dom());
            assert forall|h: WaitlistHandle| #[trigger] self.waiting().contains_key(h) implies !self.waiting()[h].subset_of(
                self.in_scope(),
            ) by {
                assert(waiting0.contains_key(h) && !moved.contains(h));
            }
        }
    }
}

/// The waitlist `after` is `before` once the `k` oldest waiting handles
/// expired: they stop waiting and are marked removed.
pub open spec fn spec_expired(before: EntityWaitlist, after: EntityWaitlist, k: int) -> bool {
    let expired = before.ttl_handles().take(k).to_set();
    &&& 0 <= k <= before.ttl_handles().len()
    &&& after.ttl_handles() == before.ttl_handles().skip(k)
    &&& after.waiting() == before.waiting().remove_keys(expired)
    &&& after.removed() == before.removed() + expired
    &&& after.in_scope() == before.in_scope()
    &&& after.ready() == before.ready()
}

/// The outcome `r`, `after` and `items_after` of collecting ready items of
/// the store holding `items_before` from the waitlist `before`, where the `k`
/// oldest waiting handles expired: their items and those of other removed
/// handles are dropped, and then, where some handle is ready, the items of
/// the ready handles are handed out.
pub open spec fn spec_collect_outcome<T>(
    before: EntityWaitlist,
    after: EntityWaitlist,
    items_before: Map<WaitlistHandle, T>,
    items_after: Map<WaitlistHandle, T>,
    r: Option<Vec<T>>,
    k: int,
) -> bool {
    let expired = before.ttl_handles().take(k).to_set();
    let removed1 = before.removed() + expired;
    let dropped = items_before.dom().intersect(removed1);
    let items1 = items_before.remove_keys(dropped);
    let taken = items1.dom().intersect(before.ready());
    &&& 0 <= k <= before.ttl_handles().len()
    &&& after.ttl_handles() == before.ttl_handles().skip(k)
    &&& after.waiting() == before.waiting().remove_keys(expired)
    &&& after.removed() == removed1.difference(dropped)
    &&& after.in_scope() == before.in_scope()
    &&& if before.ready().is_empty() {
        &&& r is None
        &&& after.ready() == before.ready()
        &&& items_after == items1
    } else {
        &&& items_after == items1.remove_keys(taken)
        &&& after.ready() == before.ready().difference(taken)
        &&& (taken.len() == 0 <==> r is None)
        &&& (r matches Some(v) ==> v@.len() == taken.len() && spec_collected(v@, items1, taken))
    }
}

impl EntityWaitlist {
    /// Expires the oldest waiting handles that have waited for the time to
    /// live or longer, as measured at `now`: they stop waiting and are marked
    /// removed. Never fails on a well-formed waitlist.
    fn try_check_handle_ttls(&mut self, now: &Instant) -> (r: Result<(), RemoteWorldError>)
        requires
            old(self).wf(),
        ensures
            final(self).wf(),
            r is Ok,
            exists|now_offset: (bool, u128)|
                spec_expired(
                    *old(self),
                    *final(self),
                    spec_expire_count(
                        spec_waited_times(now_offset, old(self).ttl_offsets()),
                        old(self).ttl_handles().len(),
                    ),
                ),
    {
        let now_offset = clock_offset(&self.clock_base, now);
        let mut waited: Vec<u128> = Vec::new();
        let mut i: usize = 0;
        while i < self.handle_ttls.len()
            invariant
                i <= self.handle_ttls@.len(),
                waited@ == spec_waited_times(now_offset, self.ttl_offsets()).take(i as int),
            decreases self.handle_ttls@.len() - i,
        {
            let w = waited_millis(now_offset, self.handle_ttls[i].0);
            waited.push(w);
            proof {
                assert(spec_waited_times(now_offset, self.ttl_offsets()).take(i + 1) =~= spec_waited_times(
                    now_offset,
                    self.ttl_offsets(),
                ).take(i as int).push(w));
            }
            i += 1;
        }
        proof {
            assert(waited@ =~= spec_waited_times(now_offset, self.ttl_offsets()));
        }
        self.try_expire_waited_handles(&waited)
    }

    /// Expires the oldest waiting handles, given `waited`, how long each
    /// waiting handle has waited, oldest first: a handle expires exactly when
    /// it and every older one waited the time to live or longer. Expired
    /// handles stop waiting and are marked removed. Never fails on a
    /// well-formed waitlist.
    pub fn try_expire_waited_handles(&mut self, waited: &Vec<u128>) -> (r: Result<(), RemoteWorldError>)
        requires
            old(self).wf(),
        ensures
            final(self).wf(),
            r is Ok,
            spec_expired(*old(self), *final(self), spec_expire_count(waited@, old(self).ttl_handles().len())),
    {
        let ghost ttl0 = self.ttl_handles();
        let ghost mut k: int = 0;
        proof {
            assert(ttl0.skip(0) =~= ttl0);
            assert(waited@.skip(0) =~= waited@);
            assert(self.waiting() =~= old(self).waiting().remove_keys(ttl0.take(0).to_set()));
            assert(self.removed() =~= old(self).removed() + ttl0.take(0).to_set());
        }
        let mut j: usize = 0;
        loop
            invariant
                self.wf(),
                0 <= k <= ttl0.len(),
                ttl0 == old(self).ttl_handles(),
                self.ttl_handles() == ttl0.skip(k),
                self.waiting() == old(self).waiting().remove_keys(ttl0.take(k).to_set()),
                self.removed() == old(self).removed() + ttl0.take(k).to_set(),
                self.in_scope() == old(self).in_scope(),
                self.ready() == old(self).ready(),
                spec_ttl_prefix(waited@) == k + spec_ttl_prefix(waited@.skip(k)),
                k <= waited@.len(),
                j == k,
            ensures
                self.wf(),
                0 <= k <= ttl0.len(),
                self.ttl_handles() == ttl0.skip(k),
                self.waiting() == old(self).waiting().remove_keys(ttl0.take(k).to_set()),
                self.removed() == old(self).removed() + ttl0.take(k).to_set(),
                self.in_scope() == old(self).in_scope(),
                self.ready() == old(self).ready(),
                k == spec_expire_count(waited@, ttl0.len()),
            decreases self.handle_ttls@.len(),
        {
            proof {
                assert(self.ttl_handles().len() == self.handle_ttls@.len());
                lemma_ttl_prefix_bound(waited@.skip(k));
            }
            if self.handle_ttls.len() == 0 {
                break;
            }
            if j >= waited.len() {
                proof {
                    assert(waited@.skip(k).len() == 0);
                }
                break;
            }
            if waited[j] < HANDLE_TTL_MILLIS {
                proof {
                    assert(waited@.skip(k)[0] == waited@[k]);
                }
                break;
            }
            proof {
                assert(waited@.skip(k)[0] == waited@[k]);
                assert(waited@.skip(k).drop_first() =~= waited@.skip(k + 1));
            }
            let ghost t = self.ttl_handles();
            let popped = self.handle_ttls.pop_front();
            let handle = match popped {
                Some(p) => p.1,
                None => {
                    return Err(RemoteWorldError::HandleTtlQueueEmpty);
                },
            };
            proof {
                assert(handle == t[0]);
                assert(self.ttl_handles() =~= t.subrange(1, t.len() as int));
                assert(t.to_set().contains(handle));
                assert(!self.ttl_handles().contains(handle)) by {
                    if self.ttl_handles().contains(handle) {
                        let j = choose|j: int| 0 <= j < self.ttl_handles().len() && self.ttl_handles()[j] == handle;
                        assert(t[j + 1] == t[0]);
                    }
                }
                assert(self.ttl_handles().no_duplicates()) by {
                    assert forall|a: int, b: int| 0 <= a < b < self.ttl_handles().len() implies self.ttl_handles()[a]
                        != self.ttl_handles()[b] by {
                        assert(self.ttl_handles()[a] == t[a + 1]);
                        assert(self.ttl_handles()[b] == t[b + 1]);
                    }
                }
            }
            self.removed_handles.insert(handle);
            let ghost ttl_before_removal = self.ttl_handles();
            let removal = self.remove_waiting(handle);
            match removal {
                Ok(()) => {},
                Err(e) => {
                    return Err(e);
                },
            }
            proof {
                assert(self.ttl_handles() == ttl_before_removal);
                assert(t == ttl0.skip(k));
                assert(ttl0[k] == handle);
                assert(ttl0.take(k + 1) =~= ttl0.take(k).push(handle));
                ttl0.take(k).lemma_push_to_set_commute(handle);
                assert(self.ttl_handles() =~= ttl0.skip(k + 1));
                assert(self.waiting() =~= old(self).waiting().remove_keys(ttl0.take(k + 1).to_set()));
                assert(self.removed() =~= old(self).removed() + ttl0.take(k + 1).to_set());
                assert(self.ttl_handles().to_set() =~= t.to_set().remove(handle)) by {
                    assert forall|x: WaitlistHandle| self.ttl_handles().contains(x) <==> (t.contains(x) && x != handle) by {
                        if self.ttl_handles().contains(x) {
                            let j = choose|j: int| 0 <= j < self.ttl_handles().len() && self.ttl_handles()[j] == x;
                            assert(t[j + 1] == x);
                        }
                        if t.contains(x) && x != handle {
                            let j = choose|j: int| 0 <= j < t.len() && t[j] == x;
                            assert(j != 0);
                            assert(self.ttl_handles()[j - 1] == x);
                        }
                    }
                }
                assert(self.ttl_handles().to_set() =~= self.waiting().dom());
                assert forall|h: WaitlistHandle| #[trigger] self.waiting().contains_key(h) implies !self.waiting()[h].subset_of(
                    self.in_scope(),
                ) by {
                    assert(old(self).waiting().contains_key(h));
                }
                k = k + 1;
            }
            j = j + 1;
        }
        proof {
            assert(spec_expired(*old(self), *self, k));
        }
        Ok(())
    }

    /// Expires the oldest waiting handles that have waited too long, as
    /// `try_check_handle_ttls`.
    fn check_handle_ttls(&mut self, now: &Instant)
        requires
            old(self).wf(),
        ensures
            final(self).wf(),
            exists|now_offset: (bool, u128)|
                spec_expired(
                    *old(self),
                    *final(self),
                    spec_expire_count(
                        spec_waited_times(now_offset, old(self).ttl_offsets()),
                        old(self).ttl_handles().len(),
                    ),
                ),
    {
        let _ = self.try_check_handle_ttls(now);
    }

    /// Expires the handles that waited too long, as measured at `now`, drops
    /// from `waitlist_store` the items of expired handles, and, where some
    /// handle is ready, hands out the items of the ready handles held there.
    pub fn collect_ready_items<T>(&mut self, now: &Instant, waitlist_store: &mut WaitlistStore<T>) -> (r: Option<
        Vec<T>,
    >)
        requires
            old(self).wf(),
            old(waitlist_store).wf(),
        ensures
            final(self).wf(),
            final(waitlist_store).wf(),
            exists|now_offset: (bool, u128)|
                spec_collect_outcome(
                    *old(self),
                    *final(self),
                    old(waitlist_store).items(),
                    final(waitlist_store).items(),
                    r,
                    spec_expire_count(
                        spec_waited_times(now_offset, old(self).ttl_offsets()),
                        old(self).ttl_handles().len(),
                    ),
                ),
    {
        let ghost items0 = waitlist_store.items();
        self.check_handle_ttls(now);
        let ghost now_offset = choose|now_offset: (bool, u128)|
            spec_expired(
                *old(self),
                *self,
                spec_expire_count(
                    spec_waited_times(now_offset, old(self).ttl_offsets()),
                    old(self).ttl_handles().len(),
                ),
            );
        let ghost k = spec_expire_count(spec_waited_times(now_offset, old(self).ttl_offsets()), old(self).ttl_handles().len());
        let ghost removed1 = self.removed();
        waitlist_store.remove_expired_items(&mut self.removed_handles);
        let ghost items1 = waitlist_store.items();
        proof {
            assert(self.waiting() =~= old(self).waiting().remove_keys(old(self).ttl_handles().take(k).to_set()));
            assert(self.removed().disjoint(self.waiting().dom())) by {
                assert(self.removed().subset_of(removed1));
            }
            assert(self.removed().finite());
        }
        if self.ready_handles.is_empty() {
            proof {
                assert(spec_collect_outcome(*old(self), *self, items0, waitlist_store.items(), None, k));
            }
            return None;
        }
        let r = match waitlist_store.try_collect_ready_items(&mut self.ready_handles) {
            Ok(v) => v,
            Err(_) => None,
        };
        proof {
            assert(self.ready().finite());
            assert(self.waiting().dom().disjoint(self.ready()));
            assert(spec_collect_outcome(*old(self), *self, items0, waitlist_store.items(), r, k));
        }
        r
    }
}

/// In a well-formed waitlist, a handle waits only while one of the entities
/// it needs is out of scope, and a waiting handle is neither ready nor
/// removed.
pub proof fn lemma_waiting_needs_missing_entity(w: EntityWaitlist, h: WaitlistHandle)
    requires
        w.wf(),
        w.waiting().contains_key(h),
    ensures
        exists|e: u16| w.waiting()[h].contains(e) && !w.in_scope().contains(e),
        !w.ready().contains(h),
        !w.removed().contains(h),
{
    assert(!w.waiting()[h].subset_of(w.in_scope()));
}

} // verus!
