//! The party roster: who is at the party, how many may be seen there at
//! once, and the score.
use crate::effect::{counts_fit, Effect, Ledger};
use crate::entity::{Entity, EntityId, Role, Tag};
use crate::flow::{AppState, Session, SessionView};
use crate::model::{
    contains_id, count_tag, distinct_ids, has_tag, is_first_with, lemma_count_bound,
    lemma_count_remove, lemma_count_witness, lemma_distinct_remove, lemma_lookup_remove_other,
    lemma_slot_unique, lemma_slot_valid, lemma_with_role, lemma_with_role_count, lookup,
    oldest_with, slot_of, with_role, without,
};
use crate::world::World;
use vstd::prelude::*;

verus! {

/// How many party animals may be seen before a delivery makes one of them
/// leave.
pub const DISPLAY_CAP: usize = 10;

/// The score: the party animals that can be seen, and those that were removed
/// to keep the party small.
pub open spec fn score_of<P>(s: Seq<Entity<P>>, despawned: nat) -> nat {
    count_tag(s, Tag::PartyAnimal) + despawned
}

/// Whether no more party animals are seen than one above the cap, which is
/// where deliveries hold the party.
pub open spec fn party_fits<P>(s: Seq<Entity<P>>) -> bool {
    count_tag(s, Tag::PartyAnimal) <= DISPLAY_CAP + 1
}

/// The ledger after the player `id` was delivered to the party. Where more
/// party animals are seen than the cap allows, the oldest of them is removed
/// first and counted; then the player becomes a party animal and is given the
/// party tint. Nothing happens where `id` is not a player.
pub open spec fn delivered<P>(o: Ledger<P>, id: EntityId) -> Ledger<P> {
    if !has_tag(o.entities, id, Tag::Player) {
        o
    } else if count_tag(o.entities, Tag::PartyAnimal) > DISPLAY_CAP {
        let oldest = oldest_with(o.entities, Tag::PartyAnimal)->0;
        Ledger {
            entities: with_role(without(o.entities, oldest), id, Some(Role::PartyAnimal)),
            despawned: o.despawned + 1,
            effects: o.effects.push(Effect::Despawn { entity: oldest }).push(
                Effect::Tint { entity: id },
            ),
        }
    } else {
        Ledger {
            entities: with_role(o.entities, id, Some(Role::PartyAnimal)),
            despawned: o.despawned,
            effects: o.effects.push(Effect::Tint { entity: id }),
        }
    }
}

/// The oldest entity with a tag is in the world, carries the tag, and no
/// entity before it does.
pub proof fn lemma_oldest<P>(s: Seq<Entity<P>>, tag: Tag)
    requires
        distinct_ids(s),
        oldest_with(s, tag) is Some,
    ensures
        contains_id(s, oldest_with(s, tag)->0),
        is_first_with(s, tag, slot_of(s, oldest_with(s, tag)->0)),
        has_tag(s, oldest_with(s, tag)->0, tag),
{
    let i = choose|i: int| is_first_with(s, tag, i);
    lemma_slot_unique(s, i);
}

/// What a delivery does. The world stays well formed and the counters keep
/// fitting the machine. Where `id` is a player: it is a party animal
/// afterwards, the score has grown by exactly one and the roster has one
/// player less; above the cap exactly one party animal, the oldest, has left
/// the world and was counted, and as many are seen as before; up to the cap
/// nobody has left and one more is seen.
pub proof fn lemma_delivered<P>(o: Ledger<P>, id: EntityId)
    requires
        distinct_ids(o.entities),
    ensures
        distinct_ids(delivered(o, id).entities),
        counts_fit(o.entities, o.despawned) ==> counts_fit(
            delivered(o, id).entities,
            delivered(o, id).despawned,
        ),
        delivered(o, id).entities.len() + delivered(o, id).despawned == o.entities.len()
            + o.despawned,
        !has_tag(o.entities, id, Tag::Player) ==> delivered(o, id) == o,
        has_tag(o.entities, id, Tag::Player) ==> {
            let after = delivered(o, id);
            let seen = count_tag(o.entities, Tag::PartyAnimal);
            &&& has_tag(after.entities, id, Tag::PartyAnimal)
            &&& score_of(after.entities, after.despawned) == score_of(o.entities, o.despawned) + 1
            &&& count_tag(after.entities, Tag::Player) + 1 == count_tag(o.entities, Tag::Player)
            &&& count_tag(after.entities, Tag::Collectable) == count_tag(
                o.entities,
                Tag::Collectable,
            )
            &&& seen > DISPLAY_CAP ==> {
                &&& after.despawned == o.despawned + 1
                &&& count_tag(after.entities, Tag::PartyAnimal) == seen
                &&& oldest_with(o.entities, Tag::PartyAnimal) is Some
                &&& !contains_id(after.entities, oldest_with(o.entities, Tag::PartyAnimal)->0)
                &&& after.entities.len() + 1 == o.entities.len()
            }
            &&& seen <= DISPLAY_CAP ==> {
                &&& after.despawned == o.despawned
                &&& count_tag(after.entities, Tag::PartyAnimal) == seen + 1
                &&& after.entities.len() == o.entities.len()
            }
        },
{
    let s = o.entities;
    if has_tag(s, id, Tag::Player) {
        lemma_slot_valid(s, id);
        let role = Some(Role::<P>::PartyAnimal);
        if count_tag(s, Tag::PartyAnimal) > DISPLAY_CAP {
            lemma_count_witness(s, Tag::PartyAnimal);
            lemma_oldest(s, Tag::PartyAnimal);
            let oldest = oldest_with(s, Tag::PartyAnimal)->0;
            let v = slot_of(s, oldest);
            let s1 = without(s, oldest);
            assert(s1 == s.remove(v));
            lemma_distinct_remove(s, v);
            lemma_lookup_remove_other(s, v, id);
            lemma_count_remove(s, v, Tag::PartyAnimal);
            lemma_count_remove(s, v, Tag::Player);
            lemma_count_remove(s, v, Tag::Collectable);
            lemma_slot_valid(s1, id);
            lemma_with_role(s1, id, role);
            lemma_with_role_count(s1, id, role, Tag::PartyAnimal);
            lemma_with_role_count(s1, id, role, Tag::Player);
            lemma_with_role_count(s1, id, role, Tag::Collectable);
            lemma_lookup_other_absent(s1, id, role, oldest);
        } else {
            lemma_with_role(s, id, role);
            lemma_with_role_count(s, id, role, Tag::PartyAnimal);
            lemma_with_role_count(s, id, role, Tag::Player);
            lemma_with_role_count(s, id, role, Tag::Collectable);
        }
    }
}

/// Setting the role of one entity does not bring another into the world.
proof fn lemma_lookup_other_absent<P>(
    s: Seq<Entity<P>>,
    id: EntityId,
    role: Option<Role<P>>,
    other: EntityId,
)
    requires
        distinct_ids(s),
        other != id,
        !contains_id(s, other),
    ensures
        !contains_id(with_role(s, id, role), other),
{
    lemma_with_role(s, id, role);
    assert(lookup(with_role(s, id, role), other) == lookup(s, other));
}

/// The ledger that a world, a session and the effects collected so far stand
/// for.
pub open spec fn ledger_of<P>(
    entities: Seq<Entity<P>>,
    session: SessionView,
    effects: Seq<Effect<P>>,
) -> Ledger<P> {
    Ledger { entities, despawned: session.despawned, effects }
}

/// Delivers the player `id` to the party; see [`delivered`]. The effects are
/// added to `effects`.
pub fn deliver<P: Copy>(
    world: &mut World<P>,
    session: &mut Session,
    effects: &mut Vec<Effect<P>>,
    id: EntityId,
)
    requires
        old(world).wf(),
        old(session).wf(),
        old(session)@.state == AppState::InGame,
        counts_fit(old(world)@, old(session)@.despawned),
    ensures
        final(world).wf(),
        final(session).wf(),
        counts_fit(final(world)@, final(session)@.despawned),
        ledger_of(final(world)@, final(session)@, final(effects)@) == delivered(
            ledger_of(old(world)@, old(session)@, old(effects)@),
            id,
        ),
        final(session)@ == (SessionView {
            despawned: final(session)@.despawned,
            ..old(session)@
        }),
{
    proof {
        lemma_delivered(ledger_of(world@, session@, effects@), id);
    }
    if !world.has(id, Tag::Player) {
        return ;
    }
    if world.count(Tag::PartyAnimal) > DISPLAY_CAP {
        proof {
            lemma_count_witness(world@, Tag::PartyAnimal);
            lemma_count_bound(world@, Tag::PartyAnimal);
        }
        match world.oldest(Tag::PartyAnimal) {
            Some(oldest) => {
                world.despawn(oldest);
                session.credit_despawn();
                effects.push(Effect::Despawn { entity: oldest });
            },
            None => {},
        }
    }
    world.set_role(id, Some(Role::PartyAnimal));
    effects.push(Effect::Tint { entity: id });
}

/// The score of the session: party animals seen plus party animals removed.
pub fn score<P: Copy>(world: &World<P>, session: &Session) -> (total: u64)
    requires
        counts_fit(world@, session@.despawned),
    ensures
        total == score_of(world@, session@.despawned),
{
    proof {
        lemma_count_bound(world@, Tag::PartyAnimal);
    }
    let seen: usize = world.count(Tag::PartyAnimal);
    seen as u64 + session.despawned_count()
}

} // verus!
