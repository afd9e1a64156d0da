//! A queue of items tagged with wrapping message indices, small at the front.
use vstd::prelude::*;
use std::collections::VecDeque;

use crate::errors::EntityError;
use crate::types::MessageIndex;
use crate::wrapping_number::{
    sequence_less_than, spec_sequence_greater_than, forward_distance,
};

verus! {

/// Where `push_back` places a new index: right after the last element,
/// counted from the back among the first `n`, that is behind the new index.
pub open spec fn spec_push_position<P>(s: Seq<(MessageIndex, P)>, index: MessageIndex, n: int) -> int
    decreases n,
{
    if n <= 0 {
        0
    } else if spec_sequence_greater_than(index, s[n - 1].0) {
        n
    } else {
        spec_push_position(s, index, n - 1)
    }
}

/// The place that `push_back` chooses: every element from it on is not behind
/// the new index, and the element before it, if any, is.
pub proof fn lemma_push_position<P>(s: Seq<(MessageIndex, P)>, index: MessageIndex, n: int)
    requires
        0 <= n <= s.len(),
    ensures
        0 <= spec_push_position(s, index, n) <= n,
        spec_push_position(s, index, n) == 0 || spec_sequence_greater_than(
            index,
            s[spec_push_position(s, index, n) - 1].0,
        ),
        forall|j: int|
            spec_push_position(s, index, n) <= j < n ==> !spec_sequence_greater_than(
                index,
                #[trigger] s[j].0,
            ),
    decreases n,
{
    if n > 0 {
        lemma_push_position(s, index, n - 1);
    }
}

/// How many elements at the front of the queue have the index `index` or
/// one behind it.
pub open spec fn spec_upto_prefix<P>(s: Seq<(MessageIndex, P)>, index: MessageIndex) -> nat
    decreases s.len(),
{
    if s.len() > 0 && (s[0].0 == index || spec_sequence_greater_than(index, s[0].0)) {
        1 + spec_upto_prefix(s.drop_first(), index)
    } else {
        0
    }
}

/// The front elements counted are part of the queue.
pub proof fn lemma_upto_prefix_bound<P>(s: Seq<(MessageIndex, P)>, index: MessageIndex)
    ensures
        spec_upto_prefix(s, index) <= s.len(),
    decreases s.len(),
{
    if s.len() > 0 && (s[0].0 == index || spec_sequence_greater_than(index, s[0].0)) {
        lemma_upto_prefix_bound(s.drop_first(), index);
    }
}

/// The queue without the elements at its front whose index is `index` or
/// behind it.
pub open spec fn spec_pop_until_including<P>(s: Seq<(MessageIndex, P)>, index: MessageIndex) -> Seq<(MessageIndex, P)> {
    s.subrange(spec_upto_prefix(s, index) as int, s.len() as int)
}

/// How many elements at the front of the queue have indices behind `index`.
pub open spec fn spec_behind_prefix<P>(s: Seq<(MessageIndex, P)>, index: MessageIndex) -> nat
    decreases s.len(),
{
    if s.len() > 0 && spec_sequence_greater_than(index, s[0].0) {
        1 + spec_behind_prefix(s.drop_first(), index)
    } else {
        0
    }
}

/// The queue without the elements at its front whose indices are behind `index`.
pub open spec fn spec_pop_until_excluding<P>(s: Seq<(MessageIndex, P)>, index: MessageIndex) -> Seq<(MessageIndex, P)> {
    s.subrange(spec_behind_prefix(s, index) as int, s.len() as int)
}

/// The indices of the queue's elements, front first.
pub open spec fn spec_ids_of<P>(s: Seq<(MessageIndex, P)>) -> Seq<MessageIndex> {
    s.map_values(|p: (MessageIndex, P)| p.0)
}

/// The items of the queue's elements, front first.
pub open spec fn spec_items_of<P>(s: Seq<(MessageIndex, P)>) -> Seq<P> {
    s.map_values(|p: (MessageIndex, P)| p.1)
}

/// A queue of `(index, item)` pairs, kept in the order of the indices as
/// they arrive.
pub struct OrderedIds<P> {
    inner: VecDeque<(MessageIndex, P)>,
}

impl<P> View for OrderedIds<P> {
    type V = Seq<(MessageIndex, P)>;

    closed spec fn view(&self) -> Seq<(MessageIndex, P)> {
        self.inner@
    }
}

impl<P> OrderedIds<P> {
    pub fn new() -> (r: Self)
        ensures
            r@ == Seq::<(MessageIndex, P)>::empty(),
    {
        OrderedIds { inner: VecDeque::new() }
    }

    pub fn len(&self) -> (r: usize)
        ensures
            r == self@.len(),
    {
        self.inner.len()
    }

    /// Inserts the item after the last element, scanning from the back, whose
    /// index is behind `message_index`; at the front if there is none.
    pub fn push_back(&mut self, message_index: MessageIndex, item: P)
        ensures
            final(self)@ == old(self)@.insert(
                spec_push_position(old(self)@, message_index, old(self)@.len() as int),
                (message_index, item),
            ),
    {
        match self.try_push_back(message_index, item) {
            Ok(()) => {},
            Err(_) => {},
        }
    }

    /// As `push_back`; the queue is never found corrupted, so this always
    /// succeeds.
    pub fn try_push_back(&mut self, message_index: MessageIndex, item: P) -> (r: Result<
        (),
        EntityError,
    >)
        ensures
            r is Ok,
            final(self)@ == old(self)@.insert(
                spec_push_position(old(self)@, message_index, old(self)@.len() as int),
                (message_index, item),
            ),
    {
        let ghost s = self@;
        proof {
            lemma_push_position(s, message_index, s.len() as int);
        }
        let mut current_index = self.inner.len();
        loop
            invariant
                s == old(self)@,
                self@ == s,
                current_index <= s.len(),
                0 <= spec_push_position(s, message_index, s.len() as int) <= s.len(),
                spec_push_position(s, message_index, s.len() as int) == spec_push_position(
                    s,
                    message_index,
                    current_index as int,
                ),
            decreases current_index,
        {
            if current_index == 0 {
                self.inner.push_front((message_index, item));
                assert(self@ =~= s.insert(0, (message_index, item)));
                return Ok(());
            }
            current_index -= 1;

            let old_index = self.inner[current_index].0;
            if sequence_less_than(old_index, message_index) {
                self.inner.insert(current_index + 1, (message_index, item));
                assert(self@ =~= s.insert(current_index + 1, (message_index, item)));
                return Ok(());
            }
        }
    }

    pub fn pop_front(&mut self) -> (r: Option<(MessageIndex, P)>)
        ensures
            old(self)@.len() == 0 ==> r is None && final(self)@ == old(self)@,
            old(self)@.len() > 0 ==> r == Some(old(self)@[0]) && final(self)@ == old(self)@.drop_first(),
    {
        self.inner.pop_front()
    }

    pub fn peek_front(&self) -> (r: Option<&(MessageIndex, P)>)
        ensures
            self@.len() == 0 ==> r is None,
            self@.len() > 0 ==> r == Some(&self@[0]),
    {
        if self.inner.len() == 0 {
            None
        } else {
            Some(&self.inner[0])
        }
    }

    pub fn clear(&mut self)
        ensures
            final(self)@ == Seq::<(MessageIndex, P)>::empty(),
    {
        self.inner.clear();
    }

    /// Drops front elements while their index is `index` or behind it.
    pub fn pop_front_until_and_including(&mut self, index: MessageIndex)
        ensures
            final(self)@ == spec_pop_until_including(old(self)@, index),
            final(self)@.len() <= old(self)@.len(),
    {
        let ghost s = self@;
        let ghost mut k: int = 0;
        proof {
            lemma_upto_prefix_bound(s, index);
        }
        loop
            invariant
                0 <= k <= s.len(),
                self@ == s.subrange(k, s.len() as int),
                spec_upto_prefix(s, index) == k + spec_upto_prefix(s.subrange(k, s.len() as int), index),
            ensures
                self@ == s.subrange(k, s.len() as int),
                spec_upto_prefix(s, index) == k,
            decreases s.len() - k,
        {
            if self.inner.len() == 0 {
                break;
            }
            let front_index = self.inner[0].0;
            if !(front_index == index || sequence_less_than(front_index, index)) {
                break;
            }
            proof {
                let t = s.subrange(k, s.len() as int);
                assert(t.drop_first() =~= s.subrange(k + 1, s.len() as int));
            }
            self.inner.pop_front();
            proof {
                k = k + 1;
                assert(self@ =~= s.subrange(k, s.len() as int));
            }
        }
    }

    /// Drops front elements while their index is behind `index`.
    pub fn pop_front_until_and_excluding(&mut self, index: MessageIndex)
        ensures
            final(self)@ == spec_pop_until_excluding(old(self)@, index),
            exists|k: int|
                0 <= k <= old(self)@.len() && final(self)@ == old(self)@.subrange(k, old(self)@.len() as int)
                    && (forall|j: int| 0 <= j < k ==> spec_sequence_greater_than(index, #[trigger] old(self)@[j].0))
                    && (k == old(self)@.len() || !spec_sequence_greater_than(index, old(self)@[k].0)),
    {
        let ghost s = self@;
        let ghost mut k: int = 0;
        loop
            invariant
                0 <= k <= s.len(),
                self@ == s.subrange(k, s.len() as int),
                forall|j: int| 0 <= j < k ==> spec_sequence_greater_than(index, #[trigger] s[j].0),
                spec_behind_prefix(s, index) == k + spec_behind_prefix(s.subrange(k, s.len() as int), index),
            ensures
                0 <= k <= s.len(),
                self@ == s.subrange(k, s.len() as int),
                forall|j: int| 0 <= j < k ==> spec_sequence_greater_than(index, #[trigger] s[j].0),
                k == s.len() || !spec_sequence_greater_than(index, s[k].0),
                spec_behind_prefix(s, index) == k,
            decreases s.len() - k,
        {
            if self.inner.len() == 0 {
                break;
            }
            let front_index = self.inner[0].0;
            if !sequence_less_than(front_index, index) {
                break;
            }
            proof {
                let t = s.subrange(k, s.len() as int);
                assert(t.drop_first() =~= s.subrange(k + 1, s.len() as int));
            }
            self.inner.pop_front();
            proof {
                k = k + 1;
                assert(self@ =~= s.subrange(k, s.len() as int));
            }
        }
    }
}

/// `a` lies within the half turn that starts at `base`.
pub open spec fn in_window(base: MessageIndex, a: MessageIndex) -> bool {
    forward_distance(base as int, a as int) < 32768
}

/// The indices are in order of their distance from `base`.
pub open spec fn window_sorted<P>(base: MessageIndex, s: Seq<(MessageIndex, P)>) -> bool {
    &&& forall|i: int| 0 <= i < s.len() ==> in_window(base, #[trigger] s[i].0)
    &&& forall|i: int, j: int|
        0 <= i < j < s.len() ==> forward_distance(base as int, #[trigger] s[i].0 as int)
            <= forward_distance(base as int, #[trigger] s[j].0 as int)
}

/// Within a half turn, being ahead on the circle is being further from the start.
pub proof fn lemma_window_order(base: MessageIndex, a: MessageIndex, b: MessageIndex)
    requires
        in_window(base, a),
        in_window(base, b),
    ensures
        spec_sequence_greater_than(a, b) <==> forward_distance(base as int, a as int)
            > forward_distance(base as int, b as int),
{
}

/// While all the indices in play lie within one half turn, `push_back`
/// keeps the queue in order.
pub proof fn lemma_push_back_keeps_window_sorted<P>(
    base: MessageIndex,
    s: Seq<(MessageIndex, P)>,
    index: MessageIndex,
    item: P,
)
    requires
        window_sorted(base, s),
        in_window(base, index),
    ensures
        window_sorted(
            base,
            s.insert(spec_push_position(s, index, s.len() as int), (index, item)),
        ),
{
    let p = spec_push_position(s, index, s.len() as int);
    lemma_push_position(s, index, s.len() as int);
    let t = s.insert(p, (index, item));
    let db = |x: MessageIndex| forward_distance(base as int, x as int);
    assert forall|j: int| p <= j < s.len() implies db(index) <= db(#[trigger] s[j].0) by {
        lemma_window_order(base, index, s[j].0);
    }
    if p > 0 {
        lemma_window_order(base, index, s[p - 1].0);
        assert forall|j: int| 0 <= j < p implies db(#[trigger] s[j].0) < db(index) by {
            assert(db(s[j].0) <= db(s[p - 1].0));
        }
    }
    assert forall|i: int| 0 <= i < t.len() implies in_window(base, #[trigger] t[i].0) by {
        if i < p {
            assert(t[i] == s[i]);
        } else if i > p {
            assert(t[i] == s[i - 1]);
        }
    }
    assert forall|i: int, j: int|
        0 <= i < j < t.len() implies db(#[trigger] t[i].0) <= db(#[trigger] t[j].0) by {
        if j < p {
            assert(t[i] == s[i] && t[j] == s[j]);
        } else if j == p {
            assert(t[i] == s[i]);
        } else if i < p {
            assert(t[i] == s[i] && t[j] == s[j - 1]);
        } else if i == p {
            assert(t[j] == s[j - 1]);
        } else {
            assert(t[i] == s[i - 1] && t[j] == s[j - 1]);
        }
    }
}

} // verus!
