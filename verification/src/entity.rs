//! Entities and the tags they carry.
use vstd::prelude::*;

verus! {

/// Stable identifier of an entity. The library never looks inside it: two
/// identifiers denote the same entity exactly when their bits agree.
#[derive(Clone, Copy, PartialEq, Eq, Structural, Debug, Hash)]
pub struct EntityId(pub u64);

/// The part an animal plays in the game. An entity holds at most one role at a
/// time, in a single slot, so two roles can never be held together.
///
/// `P` is the caller's type for a point in space. The library stores and hands
/// back such points and never computes with them.
#[derive(Clone, Copy, Debug, PartialEq)]
pub enum Role<P> {
    /// Loose in the level, waiting to be picked up.
    Collectable,
    /// Under player control. `spawn_position` is where the entity was when it
    /// became a player.
    Player { spawn_position: P },
    /// Delivered to the party zone. Nothing turns a party animal into anything
    /// else; it stays one until it is removed from the world.
    PartyAnimal,
}

/// The markers that the game's rules ask about.
#[derive(Clone, Copy, PartialEq, Eq, Structural, Debug, Hash)]
pub enum Tag {
    Collectable,
    Player,
    PartyAnimal,
    KillWall,
    PartyZone,
}

/// Everything the world knows about one entity.
#[derive(Clone, Copy, Debug, PartialEq)]
pub struct Entity<P> {
    pub id: EntityId,
    /// The role slot; `None` for scenery and for animals that were left behind.
    pub role: Option<Role<P>>,
    /// Whether touching this entity sends a player back to its spawn position.
    pub kill_wall: bool,
    /// For a delivery zone, the rest position around which it bobs.
    pub party_zone: Option<P>,
    /// Whether the entity belongs to the loaded scene and goes away with it.
    pub in_scene: bool,
}

impl<P> Role<P> {
    /// The tag that names this role.
    pub open spec fn tag(self) -> Tag {
        match self {
            Role::Collectable => Tag::Collectable,
            Role::Player { .. } => Tag::Player,
            Role::PartyAnimal => Tag::PartyAnimal,
        }
    }
}

impl<P> Entity<P> {
    /// Whether the entity carries `tag`.
    pub open spec fn has(self, tag: Tag) -> bool {
        match tag {
            Tag::Collectable => self.role matches Some(r) && r.tag() == Tag::Collectable,
            Tag::Player => self.role matches Some(r) && r.tag() == Tag::Player,
            Tag::PartyAnimal => self.role matches Some(r) && r.tag() == Tag::PartyAnimal,
            Tag::KillWall => self.kill_wall,
            Tag::PartyZone => self.party_zone is Some,
        }
    }

    /// The same entity with `role` in its role slot.
    pub open spec fn with_role(self, role: Option<Role<P>>) -> Entity<P> {
        Entity { role, ..self }
    }
}

impl<P: Copy> Entity<P> {
    /// An entity without any tag.
    pub fn bare(id: EntityId) -> (e: Entity<P>)
        ensures
            e == (Entity::<P> {
                id,
                role: None,
                kill_wall: false,
                party_zone: None,
                in_scene: false,
            }),
    {
        Entity { id, role: None, kill_wall: false, party_zone: None, in_scene: false }
    }

    /// Whether the entity carries `tag`.
    pub fn carries(&self, tag: Tag) -> (r: bool)
        ensures
            r == self.has(tag),
    {
        match tag {
            Tag::Collectable => match self.role {
                Some(Role::Collectable) => true,
                _ => false,
            },
            Tag::Player => match self.role {
                Some(Role::Player { .. }) => true,
                _ => false,
            },
            Tag::PartyAnimal => match self.role {
                Some(Role::PartyAnimal) => true,
                _ => false,
            },
            Tag::KillWall => self.kill_wall,
            Tag::PartyZone => self.party_zone.is_some(),
        }
    }

    /// Whether the entity carries every tag of `tags`.
    pub fn carries_all(&self, tags: &Vec<Tag>) -> (r: bool)
        ensures
            r == (forall|k: int| 0 <= k < tags@.len() ==> self.has(#[trigger] tags@[k])),
    {
        let n: usize = tags.len();
        let mut k: usize = 0;
        while k < n
            invariant
                n == tags@.len(),
                k <= n,
                forall|j: int| 0 <= j < k ==> self.has(#[trigger] tags@[j]),
            decreases n - k,
        {
            if !self.carries(tags[k]) {
                return false;
            }
            k += 1;
        }
        true
    }

    /// The position recorded when the entity became a player.
    pub fn spawn_position(&self) -> (r: Option<P>)
        ensures
            r == spawn_position_of(*self),
    {
        match self.role {
            Some(Role::Player { spawn_position }) => Some(spawn_position),
            _ => None,
        }
    }
}

/// The spawn position of a player, `None` for any other entity.
pub open spec fn spawn_position_of<P>(e: Entity<P>) -> Option<P> {
    match e.role {
        Some(Role::Player { spawn_position }) => Some(spawn_position),
        _ => None,
    }
}

} // verus!
