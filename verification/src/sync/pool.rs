//! What a receiving channel still holds of the messages it took in, each
//! with the index it arrived under.
use vstd::prelude::*;
use vstd::multiset::Multiset;

use crate::entity_message::{EntityMessage, spec_message_entity, spec_message_retarget};
use crate::types::MessageIndex;

verus! {

broadcast use {vstd::multiset::group_multiset_axioms, vstd::seq_lib::group_to_multiset_ensures};

/// A message, without its entity, with the index it arrived under.
pub type Tagged = (MessageIndex, EntityMessage<()>);

/// No index stands twice: a message that came under an index is the only
/// one that came under it, and it came once.
pub open spec fn spec_ids_once<A>(ms: Multiset<(MessageIndex, A)>) -> bool {
    forall|a: (MessageIndex, A), b: (MessageIndex, A)|
        #![trigger ms.count(a), ms.count(b)]
        ms.count(a) > 0 && ms.count(b) > 0 && a.0 == b.0 ==> a == b && ms.count(a) == 1
}

/// A message with its index, its entity dropped.
pub open spec fn spec_strip_tag<E: Copy + Eq>(t: (MessageIndex, EntityMessage<E>)) -> Tagged {
    (t.0, spec_message_retarget(t.1, ()))
}

/// Each message of `s` with its index, its entity dropped.
pub open spec fn spec_strip_tags<E: Copy + Eq>(s: Seq<(MessageIndex, EntityMessage<E>)>) -> Seq<Tagged> {
    s.map_values(|t: (MessageIndex, EntityMessage<E>)| spec_strip_tag(t))
}

/// Every message of `s` is addressed to `entity`.
pub open spec fn spec_all_for<E: Copy + Eq>(s: Seq<(MessageIndex, EntityMessage<E>)>, entity: E) -> bool {
    forall|i: int| 0 <= i < s.len() ==> spec_message_entity(#[trigger] s[i].1) == Some(entity)
}

/// Each message of `msgs` with the index at the same place of `ids`.
pub open spec fn spec_tag(ids: Seq<MessageIndex>, msgs: Seq<EntityMessage<()>>) -> Seq<Tagged> {
    Seq::new(msgs.len(), |i: int| (ids[i], msgs[i]))
}

/// One more message under one more index extends the tagged run by that pair.
pub proof fn lemma_tag_push(ids: Seq<MessageIndex>, msgs: Seq<EntityMessage<()>>, id: MessageIndex, m: EntityMessage<()>)
    requires
        ids.len() == msgs.len(),
    ensures
        spec_tag(ids.push(id), msgs.push(m)) == spec_tag(ids, msgs).push((id, m)),
{
    assert(spec_tag(ids.push(id), msgs.push(m)) =~= spec_tag(ids, msgs).push((id, m)));
}

/// Tagging two runs one after the other is tagging them together.
pub proof fn lemma_tag_append(
    ids1: Seq<MessageIndex>,
    msgs1: Seq<EntityMessage<()>>,
    ids2: Seq<MessageIndex>,
    msgs2: Seq<EntityMessage<()>>,
)
    requires
        ids1.len() == msgs1.len(),
        ids2.len() == msgs2.len(),
    ensures
        spec_tag(ids1 + ids2, msgs1 + msgs2) == spec_tag(ids1, msgs1) + spec_tag(ids2, msgs2),
{
    assert(spec_tag(ids1 + ids2, msgs1 + msgs2) =~= spec_tag(ids1, msgs1) + spec_tag(ids2, msgs2));
}

/// A suffix holds no more than the whole.
pub proof fn lemma_suffix_sub<A>(s: Seq<A>, k: int)
    requires
        0 <= k <= s.len(),
    ensures
        s.subrange(k, s.len() as int).to_multiset().subset_of(s.to_multiset()),
{
    let a = s.subrange(0, k);
    let b = s.subrange(k, s.len() as int);
    assert(s =~= a + b);
    vstd::seq_lib::lemma_multiset_commutative(a, b);
}

/// A non-empty sequence holds its first element and the rest.
pub proof fn lemma_drop_first_multiset<A>(s: Seq<A>)
    requires
        s.len() > 0,
    ensures
        s.to_multiset() == s.drop_first().to_multiset().insert(s[0]),
{
    assert(s.drop_first() =~= s.remove(0));
    vstd::seq_lib::to_multiset_remove(s, 0);
    assert(s.to_multiset().remove(s[0]).insert(s[0]) =~= s.to_multiset());
}

/// Dropping the entity of a message addressed to `entity` and addressing it
/// to `entity` again gives the message back.
pub proof fn lemma_retarget_back<E: Copy + Eq>(m: EntityMessage<E>, entity: E)
    requires
        spec_message_entity(m) == Some(entity),
    ensures
        spec_message_retarget(spec_message_retarget(m, ()), entity) == m,
{
}

/// Addressing a message without entity to `entity` and dropping the entity
/// again gives the message back.
pub proof fn lemma_strip_back<E: Copy + Eq>(m: EntityMessage<()>, entity: E)
    ensures
        spec_message_retarget(spec_message_retarget(m, entity), ()) == m,
{
    match m {
        EntityMessage::Spawn(u) => assert(u == ()),
        EntityMessage::Despawn(u) => assert(u == ()),
        EntityMessage::InsertComponent(u, _) => assert(u == ()),
        EntityMessage::RemoveComponent(u, _) => assert(u == ()),
        EntityMessage::Publish(u) => assert(u == ()),
        EntityMessage::Unpublish(u) => assert(u == ()),
        EntityMessage::EnableDelegation(u) => assert(u == ()),
        EntityMessage::DisableDelegation(u) => assert(u == ()),
        EntityMessage::SetAuthority(u, _) => assert(u == ()),
        EntityMessage::RequestAuthority(u, _) => assert(u == ()),
        EntityMessage::ReleaseAuthority(_) => {},
        EntityMessage::EnableDelegationResponse(u) => assert(u == ()),
        EntityMessage::MigrateResponse(u, _) => assert(u == ()),
        EntityMessage::Noop => {},
    }
}

/// Among messages addressed to `entity`, dropping the entity loses nothing:
/// each is counted as often as its stripped form.
pub proof fn lemma_strip_count<E: Copy + Eq>(s: Seq<(MessageIndex, EntityMessage<E>)>, entity: E, w: (MessageIndex, EntityMessage<E>))
    requires
        spec_all_for(s, entity),
        spec_message_entity(w.1) == Some(entity),
    ensures
        s.to_multiset().count(w) == spec_strip_tags(s).to_multiset().count(spec_strip_tag(w)),
    decreases s.len(),
{
    if s.len() > 0 {
        let init = s.drop_last();
        assert(spec_all_for(init, entity)) by {
            assert forall|i: int| 0 <= i < init.len() implies spec_message_entity(#[trigger] init[i].1) == Some(entity) by {
                assert(init[i] == s[i]);
            }
        }
        lemma_strip_count(init, entity, w);
        assert(s =~= init.push(s.last()));
        assert(spec_strip_tags(s) =~= spec_strip_tags(init).push(spec_strip_tag(s.last())));
        assert(spec_message_entity(s.last().1) == Some(entity));
        if spec_strip_tag(s.last()) == spec_strip_tag(w) {
            lemma_retarget_back(s.last().1, entity);
            lemma_retarget_back(w.1, entity);
        }
    }
}

/// A message addressed elsewhere is not among messages addressed to `entity`.
pub proof fn lemma_other_count<E: Copy + Eq>(s: Seq<(MessageIndex, EntityMessage<E>)>, entity: E, w: (MessageIndex, EntityMessage<E>))
    requires
        spec_all_for(s, entity),
        spec_message_entity(w.1) != Some(entity),
    ensures
        s.to_multiset().count(w) == 0,
{
    if s.to_multiset().count(w) > 0 {
        assert(s.contains(w));
        let i = choose|i: int| 0 <= i < s.len() && s[i] == w;
        assert(spec_message_entity(s[i].1) == Some(entity));
    }
}

} // verus!
