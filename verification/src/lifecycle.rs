//! The one-way road of an animal: collectable, then player, then party
//! animal or nothing.
//!
//! The laws of this module follow one entity through the rules. They are
//! stated for a single identifier, so that they can be chained from tick to
//! tick.
use crate::contact::{
    applied, came_before, first_for_entity, lemma_applied, resolved, step, transitions_of, Change,
    Contact, Transition,
};
use crate::effect::{Effect, Ledger};
use crate::entity::{Entity, EntityId, Role, Tag};
use crate::flow::{ticked, AppState, SessionView};
use crate::herd::{lemma_released, released};
use crate::model::{
    contains_id, count_tag, distinct_ids, has_tag, lemma_count_witness, lemma_distinct_remove,
    lemma_lookup_remove_other, lemma_slot_valid, lemma_with_role, lookup, oldest_with, slot_of,
    with_role, without,
};
use crate::roster::{delivered, lemma_oldest, DISPLAY_CAP};
use vstd::prelude::*;

verus! {

/// What a role slot can hold later, given what it holds now. An empty slot
/// stays empty and a party animal stays a party animal; a player stays the
/// player it is, with its spawn position, or loses its role, or joins the
/// party; only a collectable has every road open.
pub open spec fn role_may_become<P>(before: Option<Role<P>>, after: Option<Role<P>>) -> bool {
    match before {
        None => after is None,
        Some(Role::PartyAnimal) => after == before,
        Some(Role::Player { .. }) => after == before || after is None || after == Some(
            Role::<P>::PartyAnimal,
        ),
        Some(Role::Collectable) => true,
    }
}

/// What the rules of a tick keep of the entity `id` between two worlds: it
/// does not come into the world; while it is there, its markers stay and its
/// role only moves forward; and it only leaves the world if it had a role.
pub open spec fn lifecycle_of<P>(
    before: Seq<Entity<P>>,
    after: Seq<Entity<P>>,
    id: EntityId,
) -> bool {
    &&& contains_id(after, id) ==> contains_id(before, id)
    &&& contains_id(before, id) ==> {
        let b = lookup(before, id)->0;
        if contains_id(after, id) {
            let a = lookup(after, id)->0;
            &&& role_may_become(b.role, a.role)
            &&& a.id == b.id
            &&& a.kill_wall == b.kill_wall
            &&& a.party_zone == b.party_zone
            &&& a.in_scene == b.in_scene
        } else {
            b.role is Some
        }
    }
}

/// The lifecycle chains: what is kept from a first world to a second and from
/// the second to a third is kept from the first to the third.
pub proof fn lemma_lifecycle_chain<P>(
    a: Seq<Entity<P>>,
    b: Seq<Entity<P>>,
    c: Seq<Entity<P>>,
    id: EntityId,
)
    requires
        lifecycle_of(a, b, id),
        lifecycle_of(b, c, id),
    ensures
        lifecycle_of(a, c, id),
{
}

/// Setting a role that the old role may become keeps the lifecycle of every
/// entity.
pub proof fn lemma_lifecycle_with_role<P>(
    s: Seq<Entity<P>>,
    changed: EntityId,
    role: Option<Role<P>>,
    id: EntityId,
)
    requires
        distinct_ids(s),
        contains_id(s, changed) ==> role_may_become(lookup(s, changed)->0.role, role),
    ensures
        lifecycle_of(s, with_role(s, changed, role), id),
{
    lemma_with_role(s, changed, role);
    if contains_id(s, changed) {
        lemma_slot_valid(s, changed);
        if id != changed {
            assert(lookup(with_role(s, changed, role), id) == lookup(s, id));
        }
    }
}

/// Taking an entity with a role out of the world keeps the lifecycle of every
/// entity.
pub proof fn lemma_lifecycle_without<P>(s: Seq<Entity<P>>, gone: EntityId, id: EntityId)
    requires
        distinct_ids(s),
        contains_id(s, gone) ==> lookup(s, gone)->0.role is Some,
    ensures
        lifecycle_of(s, without(s, gone), id),
{
    if contains_id(s, gone) {
        let v = slot_of(s, gone);
        lemma_slot_valid(s, gone);
        lemma_distinct_remove(s, v);
        if id != gone {
            lemma_lookup_remove_other(s, v, id);
        }
    }
}

/// One transition keeps the lifecycle of every entity.
pub proof fn lemma_lifecycle_step<P>(o: Ledger<P>, t: Transition<P>, id: EntityId)
    requires
        distinct_ids(o.entities),
    ensures
        lifecycle_of(o.entities, step(o, t).entities, id),
{
    let s = o.entities;
    match t.change {
        Change::Pickup { at } => {
            if has_tag(s, t.entity, Tag::Collectable) {
                lemma_lifecycle_with_role(
                    s,
                    t.entity,
                    Some(Role::Player { spawn_position: at }),
                    id,
                );
            }
        },
        Change::KillReset => {
            if has_tag(s, t.entity, Tag::Player) {
                lemma_lifecycle_with_role(s, t.entity, None, id);
            }
        },
        Change::PartyEntry => {
            lemma_lifecycle_delivered(o, t.entity, id);
        },
    }
}

/// A delivery keeps the lifecycle of every entity.
pub proof fn lemma_lifecycle_delivered<P>(o: Ledger<P>, player: EntityId, id: EntityId)
    requires
        distinct_ids(o.entities),
    ensures
        lifecycle_of(o.entities, delivered(o, player).entities, id),
{
    let s = o.entities;
    let role = Some(Role::<P>::PartyAnimal);
    if has_tag(s, player, Tag::Player) {
        if count_tag(s, Tag::PartyAnimal) > DISPLAY_CAP {
            lemma_count_witness(s, Tag::PartyAnimal);
            lemma_oldest(s, Tag::PartyAnimal);
            let oldest = oldest_with(s, Tag::PartyAnimal)->0;
            let s1 = without(s, oldest);
            lemma_slot_valid(s, oldest);
            lemma_distinct_remove(s, slot_of(s, oldest));
            lemma_lookup_remove_other(s, slot_of(s, oldest), player);
            lemma_lifecycle_without(s, oldest, id);
            lemma_lifecycle_with_role(s1, player, role, id);
            lemma_lifecycle_chain(s, s1, with_role(s1, player, role), id);
        } else {
            lemma_lifecycle_with_role(s, player, role, id);
        }
    }
}

/// Going through a list of transitions keeps the lifecycle of every entity.
pub proof fn lemma_lifecycle_applied<P>(
    start: Ledger<P>,
    ts: Seq<Transition<P>>,
    n: nat,
    id: EntityId,
)
    requires
        distinct_ids(start.entities),
        n <= ts.len(),
    ensures
        lifecycle_of(start.entities, applied(start, ts, n).entities, id),
    decreases n,
{
    if n > 0 {
        let m = (n - 1) as nat;
        lemma_lifecycle_applied(start, ts, m, id);
        lemma_applied(start, ts, m);
        let before = applied(start, ts, m);
        lemma_lifecycle_step(before, ts[n - 1], id);
        lemma_lifecycle_chain(start.entities, before.entities, applied(start, ts, n).entities, id);
    }
}

/// Leaving strays behind keeps the lifecycle of every entity.
pub proof fn lemma_lifecycle_released<P>(s: Seq<Entity<P>>, strays: Seq<EntityId>, id: EntityId)
    requires
        distinct_ids(s),
    ensures
        lifecycle_of(s, released(s, strays), id),
    decreases strays.len(),
{
    if strays.len() > 0 {
        lemma_lifecycle_released(s, strays.drop_last(), id);
        lemma_released(s, strays.drop_last());
        let before = released(s, strays.drop_last());
        if has_tag(before, strays.last(), Tag::Player) {
            lemma_lifecycle_with_role(before, strays.last(), None, id);
        }
        lemma_lifecycle_chain(s, before, released(s, strays), id);
    }
}

/// No animal goes back. Whatever a tick does, every entity keeps its
/// lifecycle: none comes into the world; an entity without a role gets none
/// and stays in the world; a party animal stays one for as long as it is in
/// the world; a player stays the player it is, keeping its spawn position, or
/// loses its role, or joins the party, and never becomes a collectable again;
/// kill-wall marker, party-zone data and scene membership stay as they are.
pub proof fn lemma_lifecycle_tick<P>(
    s: Seq<Entity<P>>,
    v: SessionView,
    strays: Seq<EntityId>,
    contacts: Seq<Contact<P>>,
    id: EntityId,
)
    requires
        distinct_ids(s),
    ensures
        lifecycle_of(s, ticked(s, v, strays, contacts).entities, id),
{
    if v.state == AppState::InGame {
        lemma_released(s, strays);
        lemma_lifecycle_released(s, strays, id);
        let herd = released(s, strays);
        let ts = transitions_of(herd, contacts);
        let start = Ledger { entities: herd, despawned: v.despawned, effects: Seq::empty() };
        lemma_lifecycle_applied(start, ts, ts.len(), id);
        lemma_lifecycle_chain(s, herd, resolved(herd, v.despawned, contacts).entities, id);
    }
}

/// A transition leaves alone every entity but its own, except that a delivery
/// may remove a party animal.
pub proof fn lemma_step_leaves_others<P>(o: Ledger<P>, t: Transition<P>, id: EntityId)
    requires
        distinct_ids(o.entities),
        id != t.entity,
        !has_tag(o.entities, id, Tag::PartyAnimal),
    ensures
        lookup(step(o, t).entities, id) == lookup(o.entities, id),
{
    let s = o.entities;
    match t.change {
        Change::Pickup { at } => {
            lemma_with_role(s, t.entity, Some(Role::Player { spawn_position: at }));
        },
        Change::KillReset => {
            lemma_with_role(s, t.entity, None);
        },
        Change::PartyEntry => {
            let role = Some(Role::<P>::PartyAnimal);
            if has_tag(s, t.entity, Tag::Player) {
                if count_tag(s, Tag::PartyAnimal) > DISPLAY_CAP {
                    lemma_count_witness(s, Tag::PartyAnimal);
                    lemma_oldest(s, Tag::PartyAnimal);
                    let oldest = oldest_with(s, Tag::PartyAnimal)->0;
                    lemma_slot_valid(s, oldest);
                    lemma_distinct_remove(s, slot_of(s, oldest));
                    lemma_lookup_remove_other(s, slot_of(s, oldest), id);
                    lemma_with_role(without(s, oldest), t.entity, role);
                } else {
                    lemma_with_role(s, t.entity, role);
                }
            }
        },
    }
}

/// A collectable moves at most one step in a batch: going through a list of
/// transitions, an entity that was a collectable at the start stays in the
/// world and is a collectable or a player afterwards. While none of the
/// transitions gone through is its own, it is exactly as it was.
pub proof fn lemma_collectable_moves_one_step<P>(
    start: Ledger<P>,
    ts: Seq<Transition<P>>,
    n: nat,
    id: EntityId,
)
    requires
        distinct_ids(start.entities),
        has_tag(start.entities, id, Tag::Collectable),
        n <= ts.len(),
    ensures
        contains_id(applied(start, ts, n).entities, id),
        has_tag(applied(start, ts, n).entities, id, Tag::Collectable) || has_tag(
            applied(start, ts, n).entities,
            id,
            Tag::Player,
        ),
        !came_before(ts, n as int, id) ==> lookup(applied(start, ts, n).entities, id) == lookup(
            start.entities,
            id,
        ),
    decreases n,
{
    if n > 0 {
        let m = (n - 1) as nat;
        lemma_collectable_moves_one_step(start, ts, m, id);
        lemma_applied(start, ts, m);
        let before = applied(start, ts, m);
        let t = ts[n - 1];
        if !came_before(ts, n as int, id) {
            assert(!came_before(ts, m as int, id)) by {
                if came_before(ts, m as int, id) {
                    let j = choose|j: int| 0 <= j < m && (#[trigger] ts[j]).entity == id;
                    assert(0 <= j < n && ts[j].entity == id);
                }
            }
            assert(t.entity != id);
        }
        if first_for_entity(ts, n - 1) {
            if t.entity == id {
                assert(!came_before(ts, m as int, id)) by {
                    if came_before(ts, m as int, id) {
                        let j = choose|j: int| 0 <= j < m && (#[trigger] ts[j]).entity == id;
                        assert(ts[j].entity != ts[n - 1].entity);
                    }
                }
                match t.change {
                    Change::Pickup { at } => {
                        lemma_slot_valid(before.entities, id);
                        lemma_with_role(
                            before.entities,
                            id,
                            Some(Role::Player { spawn_position: at }),
                        );
                    },
                    Change::KillReset => {},
                    Change::PartyEntry => {},
                }
            } else {
                lemma_step_leaves_others(before, t, id);
            }
        }
    }
}

/// A collectable moves at most one step in a tick: an entity that is a
/// collectable when a tick begins is a collectable or a player when it ends,
/// and is still in the world. It cannot be picked up and delivered, or picked
/// up and benched, within the same tick.
pub proof fn lemma_collectable_moves_one_step_a_tick<P>(
    s: Seq<Entity<P>>,
    v: SessionView,
    strays: Seq<EntityId>,
    contacts: Seq<Contact<P>>,
    id: EntityId,
)
    requires
        distinct_ids(s),
        has_tag(s, id, Tag::Collectable),
    ensures
        contains_id(ticked(s, v, strays, contacts).entities, id),
        has_tag(ticked(s, v, strays, contacts).entities, id, Tag::Collectable) || has_tag(
            ticked(s, v, strays, contacts).entities,
            id,
            Tag::Player,
        ),
{
    if v.state == AppState::InGame {
        lemma_released(s, strays);
        lemma_released_leaves_others(s, strays, id);
        let herd = released(s, strays);
        let ts = transitions_of(herd, contacts);
        let start = Ledger { entities: herd, despawned: v.despawned, effects: Seq::empty() };
        lemma_collectable_moves_one_step(start, ts, ts.len(), id);
    }
}

/// Leaving strays behind leaves alone every entity that is not a player.
pub proof fn lemma_released_leaves_others<P>(
    s: Seq<Entity<P>>,
    strays: Seq<EntityId>,
    id: EntityId,
)
    requires
        distinct_ids(s),
        !has_tag(s, id, Tag::Player),
    ensures
        lookup(released(s, strays), id) == lookup(s, id),
    decreases strays.len(),
{
    if strays.len() > 0 {
        lemma_released_leaves_others(s, strays.drop_last(), id);
        lemma_released(s, strays.drop_last());
        let before = released(s, strays.drop_last());
        if has_tag(before, strays.last(), Tag::Player) {
            lemma_with_role(before, strays.last(), None);
        }
    }
}

/// The entity that an effect moves or recolours; `None` for the removal of a
/// party animal, which no rule is about.
pub open spec fn subject_of<P>(effect: Effect<P>) -> Option<EntityId> {
    match effect {
        Effect::Respawn { entity, .. } => Some(entity),
        Effect::Tint { entity } => Some(entity),
        Effect::Despawn { .. } => None,
    }
}

/// Whether no two effects have the same subject.
pub open spec fn subjects_distinct<P>(effects: Seq<Effect<P>>) -> bool {
    forall|i: int, j: int|
        0 <= i < j < effects.len() && subject_of(#[trigger] effects[i]) is Some ==> subject_of(
            effects[i],
        ) != subject_of(#[trigger] effects[j])
}

/// Whether every subject of an effect is the entity of one of the first `n`
/// transitions.
pub open spec fn subjects_within<P>(
    effects: Seq<Effect<P>>,
    ts: Seq<Transition<P>>,
    n: int,
) -> bool {
    forall|i: int|
        0 <= i < effects.len() && subject_of(#[trigger] effects[i]) is Some ==> came_before(
            ts,
            n,
            subject_of(effects[i])->0,
        )
}

/// What one transition adds to the effects: nothing is taken away, and at
/// most one effect with a subject comes on top, whose subject is the entity
/// of the transition.
pub proof fn lemma_step_effects<P>(o: Ledger<P>, t: Transition<P>)
    ensures
        o.effects.len() <= step(o, t).effects.len() <= o.effects.len() + 2,
        step(o, t).effects.subrange(0, o.effects.len() as int) == o.effects,
        forall|i: int|
            o.effects.len() <= i < step(o, t).effects.len() ==> {
                let subject = subject_of(#[trigger] step(o, t).effects[i]);
                &&& subject is Some ==> subject == Some(t.entity)
                &&& subject is Some ==> i == step(o, t).effects.len() - 1
            },
{
    assert(step(o, t).effects.subrange(0, o.effects.len() as int) =~= o.effects);
}

/// Within one batch at most one rule takes effect on an entity: going through
/// a list of transitions, no entity is the subject of two effects. An entity
/// is put back by a kill wall or given the party tint, never both, and never
/// twice.
pub proof fn lemma_one_rule_per_entity<P>(start: Ledger<P>, ts: Seq<Transition<P>>, n: nat)
    requires
        start.effects.len() == 0,
        n <= ts.len(),
    ensures
        subjects_distinct(applied(start, ts, n).effects),
        subjects_within(applied(start, ts, n).effects, ts, n as int),
    decreases n,
{
    if n > 0 {
        let m = (n - 1) as nat;
        lemma_one_rule_per_entity(start, ts, m);
        let before = applied(start, ts, m);
        let after = applied(start, ts, n);
        let t = ts[n - 1];
        assert forall|i: int|
            0 <= i < before.effects.len() && subject_of(
                #[trigger] before.effects[i],
            ) is Some implies came_before(ts, n as int, subject_of(before.effects[i])->0) by {
            let id = subject_of(before.effects[i])->0;
            assert(came_before(ts, m as int, id));
            let j = choose|j: int| 0 <= j < m && (#[trigger] ts[j]).entity == id;
            assert(ts[j].entity == id);
        }
        if first_for_entity(ts, n - 1) {
            lemma_step_effects(before, t);
            let old_len = before.effects.len() as int;
            assert forall|i: int| 0 <= i < old_len implies after.effects[i]
                == before.effects[i] by {
                assert(after.effects.subrange(0, old_len)[i] == after.effects[i]);
            }
            assert forall|i: int|
                0 <= i < after.effects.len() && subject_of(
                    #[trigger] after.effects[i],
                ) is Some implies came_before(ts, n as int, subject_of(after.effects[i])->0) by {
                if i >= old_len {
                    assert(ts[n - 1].entity == t.entity);
                }
            }
            assert forall|i: int, j: int|
                0 <= i < j < after.effects.len() && subject_of(
                    #[trigger] after.effects[i],
                ) is Some implies subject_of(after.effects[i]) != subject_of(
                #[trigger] after.effects[j]) by {
                if j >= old_len && subject_of(after.effects[j]) is Some {
                    assert(i < old_len);
                    let id = subject_of(before.effects[i])->0;
                    assert(came_before(ts, m as int, id));
                    let k = choose|k: int| 0 <= k < m && (#[trigger] ts[k]).entity == id;
                    assert(ts[k].entity != ts[n - 1].entity);
                }
            }
        }
    }
}

/// Within one batch of contacts at most one rule takes effect on an entity;
/// see [`lemma_one_rule_per_entity`].
pub proof fn lemma_one_rule_per_entity_and_batch<P>(
    s: Seq<Entity<P>>,
    despawned: nat,
    contacts: Seq<Contact<P>>,
)
    ensures
        subjects_distinct(resolved(s, despawned, contacts).effects),
{
    let ts = transitions_of(s, contacts);
    lemma_one_rule_per_entity(
        Ledger { entities: s, despawned, effects: Seq::empty() },
        ts,
        ts.len(),
    );
}

} // verus!
