//! The receiving side's bookkeeping of one component of one entity: inserts
//! and removes arrive in any order and are handed out alternately, in order.
use vstd::prelude::*;
use vstd::multiset::Multiset;

use crate::entity_message::{EntityMessage, EntityMessageType};
use crate::ordered_ids::{OrderedIds, spec_ids_of, spec_pop_until_excluding, spec_push_position};
use crate::sync::pool::{Tagged, spec_tag, lemma_tag_push, lemma_suffix_sub, lemma_drop_first_multiset};
use crate::types::{ComponentKind, MessageIndex};
use crate::wrapping_number::{sequence_equal_or_less_than, spec_sequence_greater_than};

verus! {

/// Where a run of insert and remove kinds takes a component that starts
/// present or not, or `None` where one of them is not legal there.
pub open spec fn spec_toggle_run(start: bool, s: Seq<EntityMessageType>) -> Option<bool>
    decreases s.len(),
{
    if s.len() == 0 {
        Some(start)
    } else if s[0] == EntityMessageType::InsertComponent && !start {
        spec_toggle_run(true, s.drop_first())
    } else if s[0] == EntityMessageType::RemoveComponent && start {
        spec_toggle_run(false, s.drop_first())
    } else {
        None
    }
}

/// Two runs one after the other make one.
pub proof fn lemma_toggle_run_append(start: bool, a: Seq<EntityMessageType>, b: Seq<EntityMessageType>)
    ensures
        spec_toggle_run(start, a + b) == (match spec_toggle_run(start, a) {
            Some(mid) => spec_toggle_run(mid, b),
            None => None,
        }),
    decreases a.len(),
{
    if a.len() == 0 {
        assert(a + b =~= b);
    } else {
        assert((a + b).drop_first() =~= a.drop_first() + b);
        if a[0] == EntityMessageType::InsertComponent && !start {
            lemma_toggle_run_append(true, a.drop_first(), b);
        } else if a[0] == EntityMessageType::RemoveComponent && start {
            lemma_toggle_run_append(false, a.drop_first(), b);
        }
    }
}

/// A legal run holds only inserts and removes.
pub proof fn lemma_toggle_run_kinds(start: bool, s: Seq<EntityMessageType>, i: int)
    requires
        spec_toggle_run(start, s) is Some,
        0 <= i < s.len(),
    ensures
        s[i] == EntityMessageType::InsertComponent || s[i] == EntityMessageType::RemoveComponent,
    decreases s.len(),
{
    if i > 0 {
        let next = s[0] == EntityMessageType::InsertComponent;
        lemma_toggle_run_kinds(next, s.drop_first(), i - 1);
    }
}

/// The message for each kind in `s`, about `component_kind`.
pub open spec fn spec_component_messages(s: Seq<EntityMessageType>, component_kind: ComponentKind) -> Seq<
    EntityMessage<()>,
> {
    s.map_values(
        |t: EntityMessageType|
            if t == EntityMessageType::InsertComponent {
                EntityMessage::<()>::InsertComponent((), component_kind)
            } else {
                EntityMessage::<()>::RemoveComponent((), component_kind)
            },
    )
}

/// The insert, where `insert` holds, or else the remove, of `kind`.
pub open spec fn spec_comp_msg(insert: bool, kind: ComponentKind) -> EntityMessage<()> {
    if insert {
        EntityMessage::<()>::InsertComponent((), kind)
    } else {
        EntityMessage::<()>::RemoveComponent((), kind)
    }
}

/// The waiting inserts and removes of `s`, as messages about `kind`, each
/// with its index.
pub open spec fn spec_comp_tagged(s: Seq<(MessageIndex, bool)>, kind: ComponentKind) -> Seq<Tagged> {
    s.map_values(|p: (MessageIndex, bool)| (p.0, spec_comp_msg(p.1, kind)))
}

/// How many of the waiting inserts and removes `b`, from the front, each
/// change the component from what it is then: a component present takes a
/// remove next, one absent an insert. These are the ones handed out.
pub open spec fn spec_toggle_ready(inserted: bool, b: Seq<(MessageIndex, bool)>) -> nat
    decreases b.len(),
{
    if b.len() > 0 && b[0].1 != inserted {
        1 + spec_toggle_ready(b[0].1, b.drop_first())
    } else {
        0
    }
}

/// The kind of each waiting insert or remove.
pub open spec fn spec_toggle_kinds(b: Seq<(MessageIndex, bool)>) -> Seq<EntityMessageType> {
    b.map_values(
        |p: (MessageIndex, bool)|
            if p.1 {
                EntityMessageType::InsertComponent
            } else {
                EntityMessageType::RemoveComponent
            },
    )
}

/// `post` is `pre` with waiting messages `b`, after the ready ones among them
/// were handed out, oldest first: they leave the queue, follow what was
/// handed out before, and the last of them sets whether the component is
/// present and which insert took effect last.
pub open spec fn spec_comp_processed(pre: ComponentChannel, b: Seq<(MessageIndex, bool)>, post: ComponentChannel) -> bool {
    let k = spec_toggle_ready(pre.inserted(), b) as int;
    &&& post.buffered() == b.subrange(k, b.len() as int)
    &&& post.outgoing() == pre.outgoing() + spec_toggle_kinds(b.subrange(0, k))
    &&& post.out_ids() == pre.out_ids() + spec_ids_of(b.subrange(0, k))
    &&& post.inserted() == (if k == 0 {
        pre.inserted()
    } else {
        b[k - 1].1
    })
    &&& post.last_insert() == (if k == 0 {
        pre.last_insert()
    } else if b[k - 1].1 {
        Some(b[k - 1].0)
    } else {
        None
    })
    &&& post.drained_inserted() == pre.drained_inserted()
}

/// What the entity's bookkeeping holds of one component: its kind, whether
/// it is present, the inserts and removes waiting, the index of the insert
/// that took effect last, and the kinds handed out and not yet drained.
pub type CompModel = (ComponentKind, bool, Seq<(MessageIndex, bool)>, Option<MessageIndex>, Seq<EntityMessageType>);

/// A component's bookkeeping once the ready messages at its front are handed out.
pub open spec fn spec_comp_model_processed(m: CompModel) -> CompModel {
    let k = spec_toggle_ready(m.1, m.2) as int;
    (
        m.0,
        if k == 0 {
            m.1
        } else {
            m.2[k - 1].1
        },
        m.2.subrange(k, m.2.len() as int),
        if k == 0 {
            m.3
        } else if m.2[k - 1].1 {
            Some(m.2[k - 1].0)
        } else {
            None
        },
        m.4 + spec_toggle_kinds(m.2.subrange(0, k)),
    )
}

/// A component's bookkeeping once an insert (or remove) under `id` is taken
/// in: dropped where no newer than the last insert that took effect, else
/// queued by index and what became ready handed out.
pub open spec fn spec_comp_model_accepted(m: CompModel, id: MessageIndex, insert: bool) -> CompModel {
    if m.3 matches Some(l) && (l == id || spec_sequence_greater_than(l, id)) {
        m
    } else {
        spec_comp_model_processed(
            (m.0, m.1, m.2.insert(spec_push_position(m.2, id, m.2.len() as int), (id, insert)), m.3, m.4),
        )
    }
}

/// The bookkeeping of a component of kind `kind` held in `c`.
pub open spec fn spec_comp_model(kind: ComponentKind, c: ComponentChannel) -> CompModel {
    (kind, c.inserted(), c.buffered(), c.last_insert(), c.outgoing())
}

/// What an accepted insert or remove makes of a component's bookkeeping,
/// from what `ComponentChannel::accept_message` states of the channel.
pub proof fn lemma_comp_model_accept(
    kind: ComponentKind,
    pre: ComponentChannel,
    post: ComponentChannel,
    id: MessageIndex,
    insert: bool,
)
    requires
        (pre.last_insert() matches Some(l) && (l == id || spec_sequence_greater_than(l, id))) ==> post == pre,
        !(pre.last_insert() matches Some(l) && (l == id || spec_sequence_greater_than(l, id))) ==> spec_comp_processed(
            pre,
            pre.buffered().insert(spec_push_position(pre.buffered(), id, pre.buffered().len() as int), (id, insert)),
            post,
        ),
    ensures
        spec_comp_model(kind, post) == spec_comp_model_accepted(spec_comp_model(kind, pre), id, insert),
{
}

/// What handing out the ready messages makes of a component's bookkeeping,
/// from what `ComponentChannel::process_messages` states of the channel.
pub proof fn lemma_comp_model_process(kind: ComponentKind, pre: ComponentChannel, post: ComponentChannel)
    requires
        spec_comp_processed(pre, pre.buffered(), post),
    ensures
        spec_comp_model(kind, post) == spec_comp_model_processed(spec_comp_model(kind, pre)),
{
}

/// A channel holding nothing holds no message.
proof fn lemma_empty_channel_pool(c: ComponentChannel)
    requires
        c.buffered_messages@ == Seq::<(MessageIndex, bool)>::empty(),
        c.outgoing_messages@ == Seq::<EntityMessageType>::empty(),
        c.out_ids@ == Seq::<MessageIndex>::empty(),
    ensures
        forall|k: ComponentKind| #[trigger] c.pool(k) == Multiset::<Tagged>::empty(),
{
    broadcast use {vstd::multiset::group_multiset_axioms, vstd::seq_lib::group_to_multiset_ensures};

    assert forall|k: ComponentKind| #[trigger] c.pool(k) == Multiset::<Tagged>::empty() by {
        assert(spec_comp_tagged(c.buffered_messages@, k) =~= Seq::<Tagged>::empty());
        assert(spec_tag(c.out_ids@, spec_component_messages(c.outgoing_messages@, k)) =~= Seq::<Tagged>::empty());
        assert(c.pool(k) =~= Multiset::<Tagged>::empty());
    }
}

/// Reorders the inserts and removes of one component.
pub struct ComponentChannel {
    outgoing_messages: Vec<EntityMessageType>,
    inserted: bool,
    buffered_messages: OrderedIds<bool>,
    last_insert_id: Option<MessageIndex>,
    drained_inserted: Ghost<bool>,
    out_ids: Ghost<Seq<MessageIndex>>,
}

impl ComponentChannel {
    /// Whether the component is present, counting what was handed out.
    pub closed spec fn inserted(&self) -> bool {
        self.inserted
    }

    /// Whether the component was present as of the last drain.
    pub closed spec fn drained_inserted(&self) -> bool {
        self.drained_inserted@
    }

    /// The kinds handed out and not yet drained, oldest first.
    pub closed spec fn outgoing(&self) -> Seq<EntityMessageType> {
        self.outgoing_messages@
    }

    /// Inserts and removes that arrived too early, by index.
    pub closed spec fn buffered(&self) -> Seq<(MessageIndex, bool)> {
        self.buffered_messages@
    }

    pub closed spec fn last_insert(&self) -> Option<MessageIndex> {
        self.last_insert_id
    }

    /// The indices the messages handed out and not yet drained arrived under.
    pub closed spec fn out_ids(&self) -> Seq<MessageIndex> {
        self.out_ids@
    }

    /// Every message taken in and not yet drained or dropped, as a message
    /// about `kind`, with its index.
    pub closed spec fn pool(&self, kind: ComponentKind) -> Multiset<Tagged> {
        spec_comp_tagged(self.buffered_messages@, kind).to_multiset().add(
            spec_tag(self.out_ids@, spec_component_messages(self.outgoing_messages@, kind)).to_multiset(),
        )
    }

    /// What was handed out since the last drain is a legal run from the
    /// state of the last drain to the current one, each with its index.
    pub closed spec fn wf(&self) -> bool {
        &&& spec_toggle_run(self.drained_inserted@, self.outgoing_messages@) == Some(self.inserted)
        &&& self.out_ids@.len() == self.outgoing_messages@.len()
    }

    pub fn new() -> (r: ComponentChannel)
        ensures
            r.wf(),
            !r.inserted(),
            !r.drained_inserted(),
            r.outgoing() == Seq::<EntityMessageType>::empty(),
            r.buffered() == Seq::<(MessageIndex, bool)>::empty(),
            r.out_ids() == Seq::<MessageIndex>::empty(),
            r.last_insert() is None,
            forall|k: ComponentKind| #[trigger] r.pool(k) == Multiset::<Tagged>::empty(),
    {
        let r = ComponentChannel {
            outgoing_messages: Vec::new(),
            inserted: false,
            buffered_messages: OrderedIds::new(),
            last_insert_id: None,
            drained_inserted: Ghost(false),
            out_ids: Ghost(Seq::empty()),
        };
        proof {
            lemma_empty_channel_pool(r);
        }
        r
    }

    /// A channel for a component already present, with nothing to hand out.
    pub fn new_inserted() -> (r: ComponentChannel)
        ensures
            r.wf(),
            r.inserted(),
            r.drained_inserted(),
            r.outgoing() == Seq::<EntityMessageType>::empty(),
            r.buffered() == Seq::<(MessageIndex, bool)>::empty(),
            r.out_ids() == Seq::<MessageIndex>::empty(),
            r.last_insert() is None,
            forall|k: ComponentKind| #[trigger] r.pool(k) == Multiset::<Tagged>::empty(),
    {
        let r = ComponentChannel {
            outgoing_messages: Vec::new(),
            inserted: true,
            buffered_messages: OrderedIds::new(),
            last_insert_id: None,
            drained_inserted: Ghost(true),
            out_ids: Ghost(Seq::empty()),
        };
        proof {
            lemma_empty_channel_pool(r);
        }
        r
    }

    /// Whether the component is present, counting what was handed out.
    pub fn is_inserted(&self) -> (r: bool)
        ensures
            r == self.inserted(),
    {
        self.inserted
    }

    /// Hands out the waiting messages from the front while each is legal.
    pub fn process_messages(&mut self)
        requires
            old(self).wf(),
        ensures
            final(self).wf(),
            final(self).drained_inserted() == old(self).drained_inserted(),
            old(self).outgoing().is_prefix_of(final(self).outgoing()),
            final(self).buffered().len() == 0 || final(self).buffered()[0].1 == final(self).inserted(),
            final(self).buffered().len() <= old(self).buffered().len(),
            forall|k: ComponentKind| #[trigger] final(self).pool(k) == old(self).pool(k),
            spec_comp_processed(*old(self), old(self).buffered(), *final(self)),
    {
        let ghost b0 = self.buffered_messages@;
        let ghost mut j: int = 0;
        proof {
            assert(b0.subrange(0, 0) =~= Seq::<(MessageIndex, bool)>::empty());
            assert(b0.subrange(0, b0.len() as int) =~= b0);
            assert(old(self).outgoing_messages@ + spec_toggle_kinds(b0.subrange(0, 0)) =~= old(self).outgoing_messages@);
            assert(old(self).out_ids@ + spec_ids_of(b0.subrange(0, 0)) =~= old(self).out_ids@);
        }
        loop
            invariant
                self.wf(),
                self.drained_inserted@ == old(self).drained_inserted@,
                old(self).outgoing_messages@.is_prefix_of(self.outgoing_messages@),
                self.buffered_messages@.len() <= old(self).buffered_messages@.len(),
                forall|k: ComponentKind| #[trigger] self.pool(k) == old(self).pool(k),
                b0 == old(self).buffered_messages@,
                0 <= j <= b0.len(),
                self.buffered_messages@ == b0.subrange(j, b0.len() as int),
                self.outgoing_messages@ == old(self).outgoing_messages@ + spec_toggle_kinds(b0.subrange(0, j)),
                self.out_ids@ == old(self).out_ids@ + spec_ids_of(b0.subrange(0, j)),
                self.inserted == (if j == 0 {
                    old(self).inserted
                } else {
                    b0[j - 1].1
                }),
                self.last_insert_id == (if j == 0 {
                    old(self).last_insert_id
                } else if b0[j - 1].1 {
                    Some(b0[j - 1].0)
                } else {
                    None
                }),
                spec_toggle_ready(old(self).inserted, b0) == j + spec_toggle_ready(self.inserted, self.buffered_messages@),
            ensures
                self.wf(),
                self.drained_inserted@ == old(self).drained_inserted@,
                old(self).outgoing_messages@.is_prefix_of(self.outgoing_messages@),
                self.buffered_messages@.len() == 0 || self.buffered_messages@[0].1 == self.inserted,
                self.buffered_messages@.len() <= old(self).buffered_messages@.len(),
                forall|k: ComponentKind| #[trigger] self.pool(k) == old(self).pool(k),
                0 <= j <= b0.len(),
                self.buffered_messages@ == b0.subrange(j, b0.len() as int),
                self.outgoing_messages@ == old(self).outgoing_messages@ + spec_toggle_kinds(b0.subrange(0, j)),
                self.out_ids@ == old(self).out_ids@ + spec_ids_of(b0.subrange(0, j)),
                self.inserted == (if j == 0 {
                    old(self).inserted
                } else {
                    b0[j - 1].1
                }),
                self.last_insert_id == (if j == 0 {
                    old(self).last_insert_id
                } else if b0[j - 1].1 {
                    Some(b0[j - 1].0)
                } else {
                    None
                }),
                spec_toggle_ready(old(self).inserted, b0) == j,
            decreases self.buffered_messages@.len(),
        {
            let (id, insert) = match self.buffered_messages.peek_front() {
                Some(front) => *front,
                None => {
                    break;
                },
            };
            if insert == self.inserted {
                break;
            }
            let ghost before = self.outgoing_messages@;
            let ghost pre = *self;
            if insert {
                self.inserted = true;
                self.last_insert_id = Some(id);
                self.outgoing_messages.push(EntityMessageType::InsertComponent);
            } else {
                self.inserted = false;
                self.last_insert_id = None;
                self.outgoing_messages.push(EntityMessageType::RemoveComponent);
            }
            let _ = self.buffered_messages.pop_front();
            proof {
                let sub = b0.subrange(j, b0.len() as int);
                assert(sub[0] == b0[j]);
                assert(sub.drop_first() =~= b0.subrange(j + 1, b0.len() as int));
                assert(b0.subrange(0, j + 1) =~= b0.subrange(0, j).push(b0[j]));
                assert(spec_toggle_kinds(b0.subrange(0, j + 1)) =~= spec_toggle_kinds(b0.subrange(0, j)).push(
                    self.outgoing_messages@.last(),
                ));
                assert(spec_ids_of(b0.subrange(0, j + 1)) =~= spec_ids_of(b0.subrange(0, j)).push(id));
                assert(self.outgoing_messages@ =~= old(self).outgoing_messages@ + spec_toggle_kinds(b0.subrange(0, j + 1)));
                assert(self.out_ids@.push(id) =~= old(self).out_ids@ + spec_ids_of(b0.subrange(0, j + 1)));
                j = j + 1;
                self.out_ids = Ghost(self.out_ids@.push(id));
                let t = self.outgoing_messages@;
                assert forall|k: ComponentKind| #[trigger] self.pool(k) == pre.pool(k) by {
                    broadcast use vstd::multiset::group_multiset_axioms;
                    let b0 = spec_comp_tagged(pre.buffered_messages@, k);
                    assert(spec_comp_tagged(self.buffered_messages@, k) =~= b0.drop_first());
                    lemma_drop_first_multiset(b0);
                    assert(b0[0] == (id, spec_comp_msg(insert, k)));
                    assert(spec_component_messages(t, k) =~= spec_component_messages(before, k).push(
                        spec_comp_msg(insert, k),
                    ));
                    lemma_tag_push(pre.out_ids@, spec_component_messages(before, k), id, spec_comp_msg(insert, k));
                    let x = (id, spec_comp_msg(insert, k));
                    let bm = b0.drop_first().to_multiset();
                    let tm = spec_tag(pre.out_ids@, spec_component_messages(before, k)).to_multiset();
                    let tp = spec_tag(pre.out_ids@, spec_component_messages(before, k));
                    vstd::seq_lib::to_multiset_build(tp, x);
                    assert(spec_tag(self.out_ids@, spec_component_messages(t, k)) == tp.push(x));
                    assert(self.pool(k) == bm.add(tm.insert(x)));
                    assert(pre.pool(k) == bm.insert(x).add(tm));
                    assert(bm.add(tm.insert(x)) =~= bm.insert(x).add(tm));
                }
                lemma_toggle_run_append(self.drained_inserted@, before, seq![t.last()]);
                assert(before + seq![t.last()] =~= t);
                reveal_with_fuel(spec_toggle_run, 2);
                assert(seq![t.last()].drop_first() =~= Seq::<EntityMessageType>::empty());
                assert(old(self).outgoing_messages@.is_prefix_of(t)) by {
                    assert(forall|j: int| 0 <= j < before.len() ==> t[j] == before[j]);
                }
            }
        }
    }

    /// Takes in an insert or remove of this component, unless it is no newer
    /// than the last insert that took effect, and hands out what became legal.
    pub fn accept_message(&mut self, id: MessageIndex, msg: EntityMessage<()>)
        requires
            old(self).wf(),
            msg is InsertComponent || msg is RemoveComponent,
        ensures
            final(self).wf(),
            final(self).drained_inserted() == old(self).drained_inserted(),
            old(self).outgoing().is_prefix_of(final(self).outgoing()),
            (old(self).last_insert() matches Some(l) && (l == id || spec_sequence_greater_than(l, id)))
                ==> *final(self) == *old(self),
            !(old(self).last_insert() matches Some(l) && (l == id || spec_sequence_greater_than(l, id)))
                ==> spec_comp_processed(
                *old(self),
                old(self).buffered().insert(
                    spec_push_position(old(self).buffered(), id, old(self).buffered().len() as int),
                    (id, msg is InsertComponent),
                ),
                *final(self),
            ),
            forall|k: ComponentKind| #[trigger] final(self).pool(k).subset_of(
                old(self).pool(k).insert((id, spec_comp_msg(msg is InsertComponent, k))),
            ),
    {
        match self.last_insert_id {
            Some(last_insert_id) => {
                if sequence_equal_or_less_than(id, last_insert_id) {
                    return;
                }
            },
            None => {},
        }
        let insert = match msg {
            EntityMessage::InsertComponent(_, _) => true,
            _ => false,
        };
        let ghost pre = *self;
        self.buffered_messages.push_back(id, insert);
        proof {
            broadcast use vstd::multiset::group_multiset_axioms;
            let b0 = pre.buffered_messages@;
            let p = spec_push_position(b0, id, b0.len() as int);
            crate::ordered_ids::lemma_push_position(b0, id, b0.len() as int);
            assert forall|k: ComponentKind| #[trigger] self.pool(k) == pre.pool(k).insert(
                (id, spec_comp_msg(insert, k)),
            ) by {
                let x = (id, spec_comp_msg(insert, k));
                assert(spec_comp_tagged(self.buffered_messages@, k) =~= spec_comp_tagged(b0, k).insert(p, x));
                vstd::seq_lib::to_multiset_insert(spec_comp_tagged(b0, k), p, x);
                let tm = spec_tag(pre.out_ids@, spec_component_messages(pre.outgoing_messages@, k)).to_multiset();
                assert(spec_comp_tagged(b0, k).to_multiset().insert(x).add(tm) =~= spec_comp_tagged(b0, k).to_multiset().add(
                    tm,
                ).insert(x));
            }
        }
        let ghost mid = *self;
        self.process_messages();
        proof {
            broadcast use vstd::multiset::group_multiset_axioms;
            assert forall|k: ComponentKind| #[trigger] self.pool(k).subset_of(
                pre.pool(k).insert((id, spec_comp_msg(msg is InsertComponent, k))),
            ) by {
                assert(self.pool(k) == mid.pool(k));
            }
        }
    }

    /// Drops the waiting messages at the front that are older than `id`.
    pub fn buffer_pop_front_until_and_excluding(&mut self, id: MessageIndex)
        requires
            old(self).wf(),
        ensures
            final(self).wf(),
            final(self).inserted() == old(self).inserted(),
            final(self).drained_inserted() == old(self).drained_inserted(),
            final(self).outgoing() == old(self).outgoing(),
            final(self).buffered().len() <= old(self).buffered().len(),
            final(self).buffered() == spec_pop_until_excluding(old(self).buffered(), id),
            final(self).last_insert() == old(self).last_insert(),
            final(self).out_ids() == old(self).out_ids(),
            forall|k: ComponentKind| #[trigger] final(self).pool(k).subset_of(old(self).pool(k)),
    {
        let ghost pre = *self;
        self.buffered_messages.pop_front_until_and_excluding(id);
        proof {
            broadcast use vstd::multiset::group_multiset_axioms;
            let b0 = pre.buffered_messages@;
            let j = choose|j: int| 0 <= j <= b0.len() && self.buffered_messages@ == b0.subrange(j, b0.len() as int);
            assert forall|k: ComponentKind| #[trigger] self.pool(k).subset_of(pre.pool(k)) by {
                assert(spec_comp_tagged(self.buffered_messages@, k) =~= spec_comp_tagged(b0, k).subrange(
                    j,
                    b0.len() as int,
                ));
                lemma_suffix_sub(spec_comp_tagged(b0, k), j);
            }
        }
    }

    /// Moves what was handed out, as messages about `component_kind`, to the
    /// end of `outgoing_messages`.
    pub fn drain_messages_into(&mut self, component_kind: &ComponentKind, outgoing_messages: &mut Vec<EntityMessage<()>>)
        requires
            old(self).wf(),
        ensures
            final(self).wf(),
            final(outgoing_messages)@ == old(outgoing_messages)@ + spec_component_messages(
                old(self).outgoing(),
                *component_kind,
            ),
            final(self).outgoing() == Seq::<EntityMessageType>::empty(),
            final(self).inserted() == old(self).inserted(),
            final(self).drained_inserted() == old(self).inserted(),
            final(self).buffered() == old(self).buffered(),
            final(self).last_insert() == old(self).last_insert(),
            spec_toggle_run(old(self).drained_inserted(), old(self).outgoing()) == Some(old(self).inserted()),
            final(self).out_ids() == Seq::<MessageIndex>::empty(),
            old(self).out_ids().len() == old(self).outgoing().len(),
            final(self).pool(*component_kind).add(
                spec_tag(old(self).out_ids(), spec_component_messages(old(self).outgoing(), *component_kind)).to_multiset(),
            ) == old(self).pool(*component_kind),
    {
        let ghost before = outgoing_messages@;
        let ghost kinds = self.outgoing_messages@;
        let mut i: usize = 0;
        while i < self.outgoing_messages.len()
            invariant
                self.outgoing_messages@ == kinds,
                spec_toggle_run(self.drained_inserted@, kinds) == Some(self.inserted),
                i <= kinds.len(),
                outgoing_messages@ == before + spec_component_messages(kinds.take(i as int), *component_kind),
            decreases kinds.len() - i,
        {
            let msg_type = self.outgoing_messages[i];
            proof {
                lemma_toggle_run_kinds(self.drained_inserted@, kinds, i as int);
            }
            outgoing_messages.push(msg_type.with_component_kind(component_kind));
            proof {
                assert(kinds.take(i + 1) =~= kinds.take(i as int).push(msg_type));
                assert(spec_component_messages(kinds.take(i + 1), *component_kind) =~= spec_component_messages(
                    kinds.take(i as int),
                    *component_kind,
                ).push(
                    if msg_type == EntityMessageType::InsertComponent {
                        EntityMessage::<()>::InsertComponent((), *component_kind)
                    } else {
                        EntityMessage::<()>::RemoveComponent((), *component_kind)
                    },
                ));
            }
            i += 1;
        }
        proof {
            assert(kinds.take(kinds.len() as int) =~= kinds);
        }
        let ghost pre = *self;
        self.outgoing_messages.clear();
        proof {
            broadcast use vstd::multiset::group_multiset_axioms;
            self.drained_inserted = Ghost(self.inserted);
            self.out_ids = Ghost(Seq::empty());
            let k = *component_kind;
            assert(spec_component_messages(self.outgoing_messages@, k) =~= Seq::<EntityMessage<()>>::empty());
            assert(spec_tag(self.out_ids@, spec_component_messages(self.outgoing_messages@, k)) =~= Seq::<Tagged>::empty());
            let bm = spec_comp_tagged(self.buffered_messages@, k).to_multiset();
            assert(Seq::<Tagged>::empty().to_multiset() =~= Multiset::<Tagged>::empty()) by {
                broadcast use vstd::seq_lib::group_to_multiset_ensures;
            }
            assert(self.pool(k) =~= bm);
        }
    }
}

} // verus!
