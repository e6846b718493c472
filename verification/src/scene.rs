//! Reading a loaded scene: what the name of an entity says it is.
use crate::entity::{Entity, EntityId, Role};
use crate::flow::{next_state, Session, SessionView, Signal};
use crate::game::{after_event, Event, Game};
use crate::model::introduced;
use crate::text::{contains_text, occurs_in, same_text};
use crate::world::World;
use vstd::prelude::*;

verus! {

/// What an entity of the scene is, going by its name.
#[derive(Clone, Copy, PartialEq, Eq, Structural, Debug, Hash)]
pub enum SceneKind {
    /// An animal that starts under player control.
    Player,
    /// An animal that waits to be picked up.
    Collectable,
    /// The geometry of the level.
    Level,
    /// The zone to which the herd is led.
    PartyZone,
    /// The goal, whose arrival starts the game.
    Goal,
    /// Anything the rules do not care about.
    Other,
}

/// What a name stands for. An animal is known by a word anywhere in its name,
/// `Player` before `Collectable`; the level, the party zone and the goal by
/// their exact names, and only where the entity has children to take its
/// colliders from.
pub open spec fn kind_of_name(name: Seq<char>, has_children: bool) -> SceneKind {
    if occurs_in("Player"@, name) {
        SceneKind::Player
    } else if occurs_in("Collectable"@, name) {
        SceneKind::Collectable
    } else if has_children && name == "Level"@ {
        SceneKind::Level
    } else if has_children && name == "PartyZone"@ {
        SceneKind::PartyZone
    } else if has_children && name == "Goal"@ {
        SceneKind::Goal
    } else {
        SceneKind::Other
    }
}

/// Computes [`kind_of_name`].
pub fn classify(name: &str, has_children: bool) -> (kind: SceneKind)
    ensures
        kind == kind_of_name(name@, has_children),
{
    if contains_text(name, "Player") {
        SceneKind::Player
    } else if contains_text(name, "Collectable") {
        SceneKind::Collectable
    } else if has_children && same_text(name, "Level") {
        SceneKind::Level
    } else if has_children && same_text(name, "PartyZone") {
        SceneKind::PartyZone
    } else if has_children && same_text(name, "Goal") {
        SceneKind::Goal
    } else {
        SceneKind::Other
    }
}

/// The record with which an entity of the scene enters the world, where its
/// kind gives it one: a player that spawns where it stands, a collectable, or
/// a party zone that rests where it stands.
pub open spec fn scene_entity<P>(id: EntityId, kind: SceneKind, position: P) -> Option<
    Entity<P>,
> {
    match kind {
        SceneKind::Player => Some(
            Entity {
                id,
                role: Some(Role::Player { spawn_position: position }),
                kill_wall: false,
                party_zone: None,
                in_scene: true,
            },
        ),
        SceneKind::Collectable => Some(
            Entity {
                id,
                role: Some(Role::Collectable),
                kill_wall: false,
                party_zone: None,
                in_scene: true,
            },
        ),
        SceneKind::PartyZone => Some(
            Entity { id, role: None, kill_wall: false, party_zone: Some(position), in_scene: true },
        ),
        _ => None,
    }
}

/// The world after an entity of the scene was registered.
pub open spec fn registered<P>(
    s: Seq<Entity<P>>,
    id: EntityId,
    kind: SceneKind,
    position: P,
) -> Seq<Entity<P>> {
    match scene_entity(id, kind, position) {
        Some(e) => introduced(s, e),
        None => s,
    }
}

/// Takes a named entity of the scene into the game. Animals and party zones
/// enter the world with their tags, unless their identifier is in the world
/// already; the goal gives the signal that starts the game; the level and
/// everything else leave world and session as they are.
/// The kind is returned so that the caller can give the entity its body and
/// colliders.
pub fn register<P: Copy>(
    world: &mut World<P>,
    session: &mut Session,
    id: EntityId,
    name: &str,
    position: P,
    has_children: bool,
) -> (kind: SceneKind)
    requires
        old(world).wf(),
        old(session).wf(),
    ensures
        final(world).wf(),
        final(session).wf(),
        kind == kind_of_name(name@, has_children),
        final(world)@ == registered(old(world)@, id, kind, position),
        final(session)@ == if kind == SceneKind::Goal {
            SessionView {
                state: next_state(old(session)@.state, Signal::GoalReady),
                ..old(session)@
            }
        } else {
            old(session)@
        },
        (Game { entities: final(world)@, session: final(session)@ }) == after_event(
            Game { entities: old(world)@, session: old(session)@ },
            Event::Register { id, kind, position },
        ),
{
    let kind = classify(name, has_children);
    match kind {
        SceneKind::Player => {
            world.spawn(
                Entity {
                    id,
                    role: Some(Role::Player { spawn_position: position }),
                    kill_wall: false,
                    party_zone: None,
                    in_scene: true,
                },
            );
        },
        SceneKind::Collectable => {
            world.spawn(
                Entity {
                    id,
                    role: Some(Role::Collectable),
                    kill_wall: false,
                    party_zone: None,
                    in_scene: true,
                },
            );
        },
        SceneKind::PartyZone => {
            world.spawn(
                Entity {
                    id,
                    role: None,
                    kill_wall: false,
                    party_zone: Some(position),
                    in_scene: true,
                },
            );
        },
        SceneKind::Goal => {
            session.goal_ready();
        },
        SceneKind::Level => {},
        SceneKind::Other => {},
    }
    kind
}

} // verus!
