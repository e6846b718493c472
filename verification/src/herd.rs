//! The herd on the move: who is steered, whom the camera follows, and who is
//! left behind.
//!
//! Distances and directions are the caller's business. It tells the rules
//! which players have strayed too far from the middle of the herd, and asks
//! them whom to steer and to frame.
use crate::entity::{Entity, EntityId, Tag};
use crate::model::{
    count_tag, distinct_ids, has_tag, ids_with, lemma_ids_with_len, lemma_slot_valid,
    lemma_with_role, lemma_with_role_count, with_role,
};
use crate::world::World;
use vstd::prelude::*;

verus! {

/// How far, in world units, a player may be from the middle of the herd
/// before it is left behind.
pub const LEASH_RADIUS: u32 = 20;

/// How far, in world units, the camera stands back from the middle of the
/// herd, along the direction in which it looks.
pub const CAMERA_DISTANCE: u32 = 50;

/// How fast, in world units a second, a player runs at full steering.
pub const CHARACTER_SPEED: u32 = 12;

/// The world after the player `id` was left behind: it has no role any more.
/// Nothing changes where `id` is not a player.
pub open spec fn set_free<P>(s: Seq<Entity<P>>, id: EntityId) -> Seq<Entity<P>> {
    if has_tag(s, id, Tag::Player) {
        with_role(s, id, None)
    } else {
        s
    }
}

/// The world after every entity of `strays` was left behind, one after the
/// other.
pub open spec fn released<P>(s: Seq<Entity<P>>, strays: Seq<EntityId>) -> Seq<Entity<P>>
    decreases strays.len(),
{
    if strays.len() == 0 {
        s
    } else {
        set_free(released(s, strays.drop_last()), strays.last())
    }
}

/// What leaving a player behind keeps: the world well formed and as large as
/// it was, the party and the collectables. The roster loses exactly that
/// player.
pub proof fn lemma_set_free<P>(s: Seq<Entity<P>>, id: EntityId)
    requires
        distinct_ids(s),
    ensures
        distinct_ids(set_free(s, id)),
        set_free(s, id).len() == s.len(),
        count_tag(set_free(s, id), Tag::PartyAnimal) == count_tag(s, Tag::PartyAnimal),
        count_tag(set_free(s, id), Tag::Collectable) == count_tag(s, Tag::Collectable),
        count_tag(set_free(s, id), Tag::Player) + (if has_tag(s, id, Tag::Player) {
            1nat
        } else {
            0nat
        }) == count_tag(s, Tag::Player),
        !has_tag(set_free(s, id), id, Tag::Player),
{
    if has_tag(s, id, Tag::Player) {
        lemma_slot_valid(s, id);
        lemma_with_role(s, id, None);
        lemma_with_role_count(s, id, None, Tag::PartyAnimal);
        lemma_with_role_count(s, id, None, Tag::Player);
        lemma_with_role_count(s, id, None, Tag::Collectable);
    }
}

/// What leaving strays behind keeps; see [`lemma_set_free`]. The roster does
/// not grow.
pub proof fn lemma_released<P>(s: Seq<Entity<P>>, strays: Seq<EntityId>)
    requires
        distinct_ids(s),
    ensures
        distinct_ids(released(s, strays)),
        released(s, strays).len() == s.len(),
        count_tag(released(s, strays), Tag::PartyAnimal) == count_tag(s, Tag::PartyAnimal),
        count_tag(released(s, strays), Tag::Collectable) == count_tag(s, Tag::Collectable),
        count_tag(released(s, strays), Tag::Player) <= count_tag(s, Tag::Player),
    decreases strays.len(),
{
    if strays.len() > 0 {
        lemma_released(s, strays.drop_last());
        lemma_set_free(released(s, strays.drop_last()), strays.last());
    }
}

/// Leaves behind every player among `strays`; see [`released`]. Returns how
/// many players were left behind.
pub fn release_strays<P: Copy>(world: &mut World<P>, strays: &Vec<EntityId>) -> (gone: usize)
    requires
        old(world).wf(),
    ensures
        final(world).wf(),
        final(world)@ == released(old(world)@, strays@),
        gone == count_tag(old(world)@, Tag::Player) - count_tag(final(world)@, Tag::Player),
{
    let n: usize = strays.len();
    let mut gone: usize = 0;
    let mut i: usize = 0;
    while i < n
        invariant
            n == strays@.len(),
            i <= n,
            world.wf(),
            world@ == released(old(world)@, strays@.take(i as int)),
            gone <= i,
            gone == count_tag(old(world)@, Tag::Player) - count_tag(world@, Tag::Player),
        decreases n - i,
    {
        proof {
            let next = strays@.take(i + 1);
            assert(next.drop_last() =~= strays@.take(i as int));
            assert(next.last() == strays@[i as int]);
            lemma_set_free(world@, strays@[i as int]);
        }
        if world.has(strays[i], Tag::Player) {
            world.set_role(strays[i], None);
            gone += 1;
        }
        i += 1;
    }
    proof {
        assert(strays@.take(n as int) =~= strays@);
    }
    gone
}

/// The players: the entities to steer.
pub fn roster<P: Copy>(world: &World<P>) -> (ids: Vec<EntityId>)
    ensures
        ids@ == ids_with(world@, Tag::Player),
        ids@.len() == count_tag(world@, Tag::Player),
{
    proof {
        lemma_ids_with_len(world@, Tag::Player);
    }
    world.tagged(Tag::Player)
}

/// The entities around whose middle the camera is placed: the players, or
/// `None` where there is none and the camera stays where it is.
pub fn camera_focus<P: Copy>(world: &World<P>) -> (focus: Option<Vec<EntityId>>)
    ensures
        focus is None <==> count_tag(world@, Tag::Player) == 0,
        focus matches Some(ids) ==> ids@ == ids_with(world@, Tag::Player) && ids@.len() > 0,
{
    let ids = roster(world);
    if ids.len() == 0 {
        None
    } else {
        Some(ids)
    }
}

} // verus!
