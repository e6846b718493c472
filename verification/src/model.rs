//! The world as a mathematical sequence of entities.
//!
//! Every contract of the crate is stated over the functions of this module.
//! The order of the sequence carries one meaning: an entity that becomes a
//! party animal moves to the back, so party animals stand in the order in which
//! they were delivered, the oldest first.
use crate::entity::{Entity, EntityId, Role, Tag};
use vstd::prelude::*;

verus! {

/// No identifier occurs twice.
pub open spec fn distinct_ids<P>(s: Seq<Entity<P>>) -> bool {
    forall|i: int, j: int| 0 <= i < j < s.len() ==> (#[trigger] s[i]).id != (#[trigger] s[j]).id
}

/// Whether an entity with this identifier is in the world.
pub open spec fn contains_id<P>(s: Seq<Entity<P>>, id: EntityId) -> bool {
    exists|i: int| 0 <= i < s.len() && (#[trigger] s[i]).id == id
}

/// Where the entity with this identifier stands, if there is one.
pub open spec fn slot_of<P>(s: Seq<Entity<P>>, id: EntityId) -> int {
    choose|i: int| 0 <= i < s.len() && (#[trigger] s[i]).id == id
}

/// The entity with this identifier.
pub open spec fn lookup<P>(s: Seq<Entity<P>>, id: EntityId) -> Option<Entity<P>> {
    if contains_id(s, id) {
        Some(s[slot_of(s, id)])
    } else {
        None
    }
}

/// Whether the entity with this identifier exists and carries `tag`.
pub open spec fn has_tag<P>(s: Seq<Entity<P>>, id: EntityId, tag: Tag) -> bool {
    lookup(s, id) matches Some(e) && e.has(tag)
}

/// How many entities carry `tag`.
pub open spec fn count_tag<P>(s: Seq<Entity<P>>, tag: Tag) -> nat
    decreases s.len(),
{
    if s.len() == 0 {
        0
    } else {
        count_tag(s.drop_last(), tag) + if s.last().has(tag) {
            1nat
        } else {
            0nat
        }
    }
}

/// The identifiers of the entities that carry `tag`, in world order.
pub open spec fn ids_with<P>(s: Seq<Entity<P>>, tag: Tag) -> Seq<EntityId>
    decreases s.len(),
{
    if s.len() == 0 {
        Seq::empty()
    } else if s.last().has(tag) {
        ids_with(s.drop_last(), tag).push(s.last().id)
    } else {
        ids_with(s.drop_last(), tag)
    }
}

/// Whether an entity carries every tag of `tags`.
pub open spec fn has_all<P>(e: Entity<P>, tags: Seq<Tag>) -> bool {
    forall|k: int| 0 <= k < tags.len() ==> e.has(#[trigger] tags[k])
}

/// The identifiers of the entities that carry every tag of `tags`, in world
/// order.
pub open spec fn ids_with_all<P>(s: Seq<Entity<P>>, tags: Seq<Tag>) -> Seq<EntityId>
    decreases s.len(),
{
    if s.len() == 0 {
        Seq::empty()
    } else if has_all(s.last(), tags) {
        ids_with_all(s.drop_last(), tags).push(s.last().id)
    } else {
        ids_with_all(s.drop_last(), tags)
    }
}

/// Whether `i` is the first place in the world where an entity carries `tag`.
pub open spec fn is_first_with<P>(s: Seq<Entity<P>>, tag: Tag, i: int) -> bool {
    &&& 0 <= i < s.len()
    &&& s[i].has(tag)
    &&& forall|j: int| 0 <= j < i ==> !(#[trigger] s[j]).has(tag)
}

/// The entity that has carried `tag` the longest: the first one in world order.
pub open spec fn oldest_with<P>(s: Seq<Entity<P>>, tag: Tag) -> Option<EntityId> {
    if exists|i: int| is_first_with(s, tag, i) {
        Some(s[choose|i: int| is_first_with(s, tag, i)].id)
    } else {
        None
    }
}

/// The world after `e` was brought into it: at the back, unless an entity
/// with the same identifier is there already, in which case nothing changes.
pub open spec fn introduced<P>(s: Seq<Entity<P>>, e: Entity<P>) -> Seq<Entity<P>> {
    if contains_id(s, e.id) {
        s
    } else {
        s.push(e)
    }
}

/// The world without the entity with this identifier.
pub open spec fn without<P>(s: Seq<Entity<P>>, id: EntityId) -> Seq<Entity<P>> {
    if contains_id(s, id) {
        s.remove(slot_of(s, id))
    } else {
        s
    }
}

/// The world after the role slot of an entity was set. A new party animal goes
/// to the back of the world; any other change leaves the entity in its place.
/// Nothing changes where no entity has this identifier.
pub open spec fn with_role<P>(s: Seq<Entity<P>>, id: EntityId, role: Option<Role<P>>) -> Seq<
    Entity<P>,
> {
    if !contains_id(s, id) {
        s
    } else {
        let i = slot_of(s, id);
        let e = s[i].with_role(role);
        if e.has(Tag::PartyAnimal) {
            s.remove(i).push(e)
        } else {
            s.update(i, e)
        }
    }
}

/// The world after the kill-wall marker of an entity was set.
pub open spec fn with_kill_wall<P>(s: Seq<Entity<P>>, id: EntityId, on: bool) -> Seq<Entity<P>> {
    if contains_id(s, id) {
        let i = slot_of(s, id);
        s.update(i, Entity { kill_wall: on, ..s[i] })
    } else {
        s
    }
}

/// The world after the party-zone data of an entity was set.
pub open spec fn with_party_zone<P>(s: Seq<Entity<P>>, id: EntityId, zone: Option<P>) -> Seq<
    Entity<P>,
> {
    if contains_id(s, id) {
        let i = slot_of(s, id);
        s.update(i, Entity { party_zone: zone, ..s[i] })
    } else {
        s
    }
}

/// The entities that do not belong to the loaded scene, in world order.
pub open spec fn outside_scene<P>(s: Seq<Entity<P>>) -> Seq<Entity<P>>
    decreases s.len(),
{
    if s.len() == 0 {
        Seq::empty()
    } else if s.last().in_scene {
        outside_scene(s.drop_last())
    } else {
        outside_scene(s.drop_last()).push(s.last())
    }
}

/// With distinct identifiers, an entity is found where it stands.
pub proof fn lemma_slot_unique<P>(s: Seq<Entity<P>>, i: int)
    requires
        distinct_ids(s),
        0 <= i < s.len(),
    ensures
        contains_id(s, s[i].id),
        slot_of(s, s[i].id) == i,
        lookup(s, s[i].id) == Some(s[i]),
{
    let id = s[i].id;
    assert(contains_id(s, id));
    let k = slot_of(s, id);
    assert(0 <= k < s.len() && s[k].id == id);
    if k < i {
        assert(s[k].id != s[i].id);
    } else if i < k {
        assert(s[i].id != s[k].id);
    }
}

/// An identifier that is in the world has a place in it.
pub proof fn lemma_slot_valid<P>(s: Seq<Entity<P>>, id: EntityId)
    requires
        contains_id(s, id),
    ensures
        0 <= slot_of(s, id) < s.len(),
        s[slot_of(s, id)].id == id,
{
}

/// Counting over a concatenation adds up.
pub proof fn lemma_count_concat<P>(a: Seq<Entity<P>>, b: Seq<Entity<P>>, tag: Tag)
    ensures
        count_tag(a + b, tag) == count_tag(a, tag) + count_tag(b, tag),
    decreases b.len(),
{
    if b.len() == 0 {
        assert(a + b =~= a);
    } else {
        assert((a + b).drop_last() =~= a + b.drop_last());
        assert((a + b).last() == b.last());
        lemma_count_concat(a, b.drop_last(), tag);
    }
}

/// A world of one entity counts one or nothing.
pub proof fn lemma_count_single<P>(e: Entity<P>, tag: Tag)
    ensures
        count_tag(seq![e], tag) == if e.has(tag) {
            1nat
        } else {
            0nat
        },
{
    let s = seq![e];
    assert(s.drop_last() =~= Seq::<Entity<P>>::empty());
    assert(count_tag(s.drop_last(), tag) == 0);
    assert(s.last() == e);
}

/// No more entities carry a tag than there are entities.
pub proof fn lemma_count_bound<P>(s: Seq<Entity<P>>, tag: Tag)
    ensures
        count_tag(s, tag) <= s.len(),
    decreases s.len(),
{
    if s.len() > 0 {
        lemma_count_bound(s.drop_last(), tag);
    }
}

/// What adding an entity at the back does to a count.
pub proof fn lemma_count_push<P>(s: Seq<Entity<P>>, e: Entity<P>, tag: Tag)
    ensures
        count_tag(s.push(e), tag) == count_tag(s, tag) + if e.has(tag) {
            1nat
        } else {
            0nat
        },
{
    assert(s.push(e).drop_last() =~= s);
    assert(s.push(e).last() == e);
}

/// What taking an entity out does to a count.
pub proof fn lemma_count_remove<P>(s: Seq<Entity<P>>, i: int, tag: Tag)
    requires
        0 <= i < s.len(),
    ensures
        count_tag(s, tag) == count_tag(s.remove(i), tag) + if s[i].has(tag) {
            1nat
        } else {
            0nat
        },
{
    let head = s.take(i);
    let tail = s.skip(i + 1);
    assert(s =~= head + seq![s[i]] + tail);
    assert(s.remove(i) =~= head + tail);
    lemma_count_concat(head, seq![s[i]], tag);
    lemma_count_concat(head + seq![s[i]], tail, tag);
    lemma_count_concat(head, tail, tag);
    lemma_count_single(s[i], tag);
}

/// What replacing an entity does to a count.
pub proof fn lemma_count_update<P>(s: Seq<Entity<P>>, i: int, e: Entity<P>, tag: Tag)
    requires
        0 <= i < s.len(),
    ensures
        count_tag(s.update(i, e), tag) + (if s[i].has(tag) {
            1nat
        } else {
            0nat
        }) == count_tag(s, tag) + if e.has(tag) {
            1nat
        } else {
            0nat
        },
{
    let t = s.update(i, e);
    lemma_count_remove(s, i, tag);
    lemma_count_remove(t, i, tag);
    assert(t.remove(i) =~= s.remove(i));
}

/// A count above zero has a witness, and the first witness is the oldest.
pub proof fn lemma_count_witness<P>(s: Seq<Entity<P>>, tag: Tag)
    requires
        count_tag(s, tag) > 0,
    ensures
        exists|i: int| is_first_with(s, tag, i),
        oldest_with(s, tag) is Some,
    decreases s.len(),
{
    if count_tag(s.drop_last(), tag) > 0 {
        lemma_count_witness(s.drop_last(), tag);
        let i = choose|i: int| is_first_with(s.drop_last(), tag, i);
        assert forall|j: int| 0 <= j < i implies !(#[trigger] s[j]).has(tag) by {
            assert(s.drop_last()[j] == s[j]);
        }
        assert(s.drop_last()[i] == s[i]);
        assert(is_first_with(s, tag, i));
    } else {
        let i = s.len() - 1;
        lemma_count_none(s.drop_last(), tag);
        assert forall|j: int| 0 <= j < i implies !(#[trigger] s[j]).has(tag) by {
            assert(s.drop_last()[j] == s[j]);
        }
        assert(is_first_with(s, tag, i));
    }
}

/// A count of zero means that no entity carries the tag.
pub proof fn lemma_count_none<P>(s: Seq<Entity<P>>, tag: Tag)
    requires
        count_tag(s, tag) == 0,
    ensures
        forall|i: int| 0 <= i < s.len() ==> !(#[trigger] s[i]).has(tag),
    decreases s.len(),
{
    if s.len() > 0 {
        lemma_count_none(s.drop_last(), tag);
        assert forall|i: int| 0 <= i < s.len() implies !(#[trigger] s[i]).has(tag) by {
            if i < s.len() - 1 {
                assert(s.drop_last()[i] == s[i]);
            }
        }
    }
}

/// An entity that carries a tag is counted.
pub proof fn lemma_count_member<P>(s: Seq<Entity<P>>, i: int, tag: Tag)
    requires
        0 <= i < s.len(),
        s[i].has(tag),
    ensures
        count_tag(s, tag) >= 1,
{
    lemma_count_remove(s, i, tag);
}

/// As many identifiers are listed as entities are counted.
pub proof fn lemma_ids_with_len<P>(s: Seq<Entity<P>>, tag: Tag)
    ensures
        ids_with(s, tag).len() == count_tag(s, tag),
    decreases s.len(),
{
    if s.len() > 0 {
        lemma_ids_with_len(s.drop_last(), tag);
    }
}

/// Replacing an entity by one with the same identifier keeps identifiers
/// distinct.
pub proof fn lemma_distinct_update<P>(s: Seq<Entity<P>>, i: int, e: Entity<P>)
    requires
        distinct_ids(s),
        0 <= i < s.len(),
        e.id == s[i].id,
    ensures
        distinct_ids(s.update(i, e)),
{
    let t = s.update(i, e);
    assert forall|a: int, b: int| 0 <= a < b < t.len() implies (#[trigger] t[a]).id != (
    #[trigger] t[b]).id by {
        assert(t[a].id == s[a].id);
        assert(t[b].id == s[b].id);
    }
}

/// Taking an entity out keeps identifiers distinct, and its identifier is gone.
pub proof fn lemma_distinct_remove<P>(s: Seq<Entity<P>>, i: int)
    requires
        distinct_ids(s),
        0 <= i < s.len(),
    ensures
        distinct_ids(s.remove(i)),
        !contains_id(s.remove(i), s[i].id),
{
    let t = s.remove(i);
    assert forall|a: int, b: int| 0 <= a < b < t.len() implies (#[trigger] t[a]).id != (
    #[trigger] t[b]).id by {
        let a0 = if a < i {
            a
        } else {
            a + 1
        };
        let b0 = if b < i {
            b
        } else {
            b + 1
        };
        assert(t[a] == s[a0]);
        assert(t[b] == s[b0]);
    }
    assert forall|a: int| 0 <= a < t.len() implies (#[trigger] t[a]).id != s[i].id by {
        let a0 = if a < i {
            a
        } else {
            a + 1
        };
        assert(t[a] == s[a0]);
        if a0 < i {
            assert(s[a0].id != s[i].id);
        } else {
            assert(s[i].id != s[a0].id);
        }
    }
}

/// Adding an entity whose identifier is new keeps identifiers distinct.
pub proof fn lemma_distinct_push<P>(s: Seq<Entity<P>>, e: Entity<P>)
    requires
        distinct_ids(s),
        !contains_id(s, e.id),
    ensures
        distinct_ids(s.push(e)),
{
    let t = s.push(e);
    assert forall|a: int, b: int| 0 <= a < b < t.len() implies (#[trigger] t[a]).id != (
    #[trigger] t[b]).id by {
        if b < s.len() {
            assert(t[a] == s[a]);
            assert(t[b] == s[b]);
        } else {
            assert(t[a] == s[a]);
        }
    }
}

/// Setting a role keeps identifiers distinct and keeps every entity but the
/// one named.
pub proof fn lemma_with_role<P>(s: Seq<Entity<P>>, id: EntityId, role: Option<Role<P>>)
    requires
        distinct_ids(s),
    ensures
        distinct_ids(with_role(s, id, role)),
        with_role(s, id, role).len() == s.len(),
        contains_id(s, id) ==> lookup(with_role(s, id, role), id) == Some(
            lookup(s, id)->0.with_role(role),
        ),
        forall|other: EntityId|
            other != id ==> lookup(with_role(s, id, role), other) == #[trigger] lookup(s, other),
{
    let t = with_role(s, id, role);
    if contains_id(s, id) {
        let i = slot_of(s, id);
        let e = s[i].with_role(role);
        lemma_slot_unique(s, i);
        if e.has(Tag::PartyAnimal) {
            lemma_distinct_remove(s, i);
            lemma_distinct_push(s.remove(i), e);
            lemma_slot_unique(t, t.len() - 1);
            assert forall|other: EntityId| other != id implies lookup(t, other) == #[trigger] lookup(
                s,
                other,
            ) by {
                lemma_lookup_remove_other(s, i, other);
                lemma_lookup_push_other(s.remove(i), e, other);
            }
        } else {
            lemma_distinct_update(s, i, e);
            lemma_slot_unique(t, i);
            assert forall|other: EntityId| other != id implies lookup(t, other) == #[trigger] lookup(
                s,
                other,
            ) by {
                lemma_lookup_update_other(s, i, e, other);
            }
        }
    }
}

/// Replacing an entity does not touch the entities with other identifiers.
pub proof fn lemma_lookup_update_other<P>(s: Seq<Entity<P>>, i: int, e: Entity<P>, other: EntityId)
    requires
        distinct_ids(s),
        0 <= i < s.len(),
        e.id == s[i].id,
        other != e.id,
    ensures
        lookup(s.update(i, e), other) == lookup(s, other),
{
    let t = s.update(i, e);
    lemma_distinct_update(s, i, e);
    if contains_id(s, other) {
        let k = slot_of(s, other);
        assert(t[k] == s[k]);
        lemma_slot_unique(t, k);
    } else {
        if contains_id(t, other) {
            let k = slot_of(t, other);
            assert(t[k] == s[k]);
            assert(s[k].id == other);
        }
    }
}

/// Taking an entity out does not touch the entities with other identifiers.
pub proof fn lemma_lookup_remove_other<P>(s: Seq<Entity<P>>, i: int, other: EntityId)
    requires
        distinct_ids(s),
        0 <= i < s.len(),
        other != s[i].id,
    ensures
        lookup(s.remove(i), other) == lookup(s, other),
{
    let t = s.remove(i);
    lemma_distinct_remove(s, i);
    if contains_id(s, other) {
        let k = slot_of(s, other);
        let k1 = if k < i {
            k
        } else {
            k - 1
        };
        assert(t[k1] == s[k]);
        lemma_slot_unique(t, k1);
    } else {
        if contains_id(t, other) {
            let k = slot_of(t, other);
            let k0 = if k < i {
                k
            } else {
                k + 1
            };
            assert(t[k] == s[k0]);
            assert(s[k0].id == other);
        }
    }
}

/// Adding an entity does not touch the entities with other identifiers.
pub proof fn lemma_lookup_push_other<P>(s: Seq<Entity<P>>, e: Entity<P>, other: EntityId)
    requires
        distinct_ids(s),
        !contains_id(s, e.id),
        other != e.id,
    ensures
        lookup(s.push(e), other) == lookup(s, other),
{
    let t = s.push(e);
    lemma_distinct_push(s, e);
    if contains_id(s, other) {
        let k = slot_of(s, other);
        assert(t[k] == s[k]);
        lemma_slot_unique(t, k);
    } else {
        if contains_id(t, other) {
            let k = slot_of(t, other);
            if k < s.len() {
                assert(t[k] == s[k]);
                assert(s[k].id == other);
            }
        }
    }
}

/// What setting a role does to the counts: the entity leaves the count of the
/// tag it carried and joins the count of the tag it now carries.
pub proof fn lemma_with_role_count<P>(
    s: Seq<Entity<P>>,
    id: EntityId,
    role: Option<Role<P>>,
    tag: Tag,
)
    requires
        contains_id(s, id),
    ensures
        count_tag(with_role(s, id, role), tag) + (if s[slot_of(s, id)].has(tag) {
            1nat
        } else {
            0nat
        }) == count_tag(s, tag) + if s[slot_of(s, id)].with_role(role).has(tag) {
            1nat
        } else {
            0nat
        },
{
    let i = slot_of(s, id);
    let e = s[i].with_role(role);
    if e.has(Tag::PartyAnimal) {
        lemma_count_remove(s, i, tag);
        lemma_count_push(s.remove(i), e, tag);
    } else {
        lemma_count_update(s, i, e, tag);
    }
}

/// Taking the scene out keeps identifiers distinct, and no party animal,
/// player or collectable appears that was not there.
pub proof fn lemma_outside_scene<P>(s: Seq<Entity<P>>)
    requires
        distinct_ids(s),
    ensures
        distinct_ids(outside_scene(s)),
        outside_scene(s).len() <= s.len(),
        forall|k: int|
            0 <= k < outside_scene(s).len() ==> contains_id(s, (#[trigger] outside_scene(s)[k]).id),
        forall|tag: Tag| count_tag(outside_scene(s), tag) <= #[trigger] count_tag(s, tag),
    decreases s.len(),
{
    if s.len() > 0 {
        let head = s.drop_last();
        let last = s.last();
        assert(distinct_ids(head)) by {
            assert forall|i: int, j: int| 0 <= i < j < head.len() implies (#[trigger] head[i]).id != (
            #[trigger] head[j]).id by {
                assert(head[i] == s[i]);
                assert(head[j] == s[j]);
            }
        }
        lemma_outside_scene(head);
        let kept = outside_scene(head);
        assert forall|k: int| 0 <= k < kept.len() implies contains_id(s, (#[trigger] kept[k]).id) by {
            let i = slot_of(head, kept[k].id);
            assert(head[i] == s[i]);
        }
        if !last.in_scene {
            assert(!contains_id(kept, last.id)) by {
                if contains_id(kept, last.id) {
                    let k = slot_of(kept, last.id);
                    let i = slot_of(head, kept[k].id);
                    assert(head[i] == s[i]);
                    assert(s[i].id != s[s.len() - 1].id);
                }
            }
            lemma_distinct_push(kept, last);
            assert forall|k: int| 0 <= k < kept.push(last).len() implies contains_id(
                s,
                (#[trigger] kept.push(last)[k]).id,
            ) by {
                if k < kept.len() {
                    assert(kept.push(last)[k] == kept[k]);
                } else {
                    assert(s[s.len() - 1].id == last.id);
                }
            }
        }
        assert forall|tag: Tag| count_tag(outside_scene(s), tag) <= #[trigger] count_tag(
            s,
            tag,
        ) by {
            assert(count_tag(kept, tag) <= count_tag(head, tag));
            if !last.in_scene {
                lemma_count_push(kept, last, tag);
            }
        }
    }
}

} // verus!
