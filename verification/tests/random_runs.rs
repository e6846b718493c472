use herding::contact::Contact;
use herding::effect::Effect;
use herding::entity::{Entity, EntityId, Role, Tag};
use herding::flow::{advance, AppState, Session};
use herding::roster::{score, DISPLAY_CAP};
use herding::scene::register;
use herding::world::World;

/// A small generator of numbers that look random and are the same on every
/// run.
struct Dice(u64);

impl Dice {
    fn roll(&mut self, sides: u64) -> u64 {
        self.0 = self.0.wrapping_mul(6364136223846793005).wrapping_add(1442695040888963407);
        (self.0 >> 33) % sides
    }
}

const ANIMALS: u64 = 40;
const WALL: u64 = 900;
const ZONE: u64 = 901;

fn level(dice: &mut Dice) -> (World<u64>, Session) {
    let mut world: World<u64> = World::new();
    let mut session = Session::new();
    let mut wall: Entity<u64> = Entity::bare(EntityId(WALL));
    wall.kill_wall = true;
    world.spawn(wall);
    register(&mut world, &mut session, EntityId(ZONE), "PartyZone", 0, true);
    for id in 0..ANIMALS {
        let name = if dice.roll(4) == 0 { "Player" } else { "Collectable" };
        register(&mut world, &mut session, EntityId(id), name, id, false);
    }
    register(&mut world, &mut session, EntityId(902), "Goal", 0, true);
    (world, session)
}

fn some_entity(dice: &mut Dice) -> u64 {
    match dice.roll(8) {
        0 => WALL,
        1 => ZONE,
        2 => 5000,
        _ => dice.roll(ANIMALS),
    }
}

fn batch(dice: &mut Dice) -> Vec<Contact<u64>> {
    let mut contacts = Vec::new();
    for _ in 0..dice.roll(6) {
        let (a, b) = (some_entity(dice), some_entity(dice));
        contacts.push(Contact {
            first: EntityId(a),
            second: EntityId(b),
            first_position: 1000 + a,
            second_position: 1000 + b,
        });
    }
    contacts
}

fn roles(world: &World<u64>) -> Vec<Option<Option<Role<u64>>>> {
    (0..ANIMALS).map(|id| world.get(EntityId(id)).map(|e| e.role)).collect()
}

#[test]
fn random_games_keep_the_laws() {
    let mut dice = Dice(2024);
    for _ in 0..150 {
        let (mut world, mut session) = level(&mut dice);
        assert_eq!(session.state(), AppState::InGame);
        let size = world.len() as u64;
        for _ in 0..60 {
            let before_score = score(&world, &session);
            let before_removed = session.despawned_count();
            let before_roles = roles(&world);
            let before_state = session.state();
            let strays: Vec<EntityId> = if dice.roll(5) == 0 {
                vec![EntityId(dice.roll(ANIMALS))]
            } else {
                Vec::new()
            };
            let contacts = batch(&mut dice);
            let tick = advance(&mut world, &mut session, &strays, &contacts);

            // No identifier twice; every entity at most one role.
            let all = world.tagged_all(&Vec::new());
            for (i, id) in all.iter().enumerate() {
                assert!(!all[..i].contains(id));
                let e = world.get(*id).unwrap();
                let held = [Tag::Collectable, Tag::Player, Tag::PartyAnimal]
                    .iter()
                    .filter(|tag| e.carries(**tag))
                    .count();
                assert!(held <= 1);
            }
            // Counters and score only go up; nothing is lost uncounted.
            assert!(score(&world, &session) >= before_score);
            assert!(session.despawned_count() >= before_removed);
            assert_eq!(world.len() as u64 + session.despawned_count(), size);
            assert!(world.count(Tag::PartyAnimal) <= DISPLAY_CAP + 1);
            // Outside a running game a tick does nothing.
            if before_state != AppState::InGame {
                assert!(tick.effects.is_empty());
                assert_eq!(roles(&world), before_roles);
                assert_eq!(score(&world, &session), before_score);
            }
            // The game is over exactly when a running game has no player.
            if before_state == AppState::InGame {
                let over = world.count(Tag::Player) == 0;
                assert_eq!(session.state() == AppState::GameOver, over);
                assert_eq!(tick.final_score.is_some(), over);
                if over {
                    assert_eq!(tick.final_score, Some(score(&world, &session)));
                }
            }
            // No animal goes back.
            for (before, after) in before_roles.iter().zip(roles(&world)) {
                match (before, after) {
                    (None, after) => assert_eq!(after, None),
                    (Some(None), after) => assert_eq!(after, Some(None)),
                    (Some(Some(Role::PartyAnimal)), after) => {
                        assert!(after == None || after == Some(Some(Role::PartyAnimal)))
                    }
                    (Some(Some(Role::Player { spawn_position })), after) => assert!(
                        after == None
                            || after == Some(None)
                            || after == Some(Some(Role::PartyAnimal))
                            || after == Some(Some(Role::Player { spawn_position: *spawn_position }))
                    ),
                    (Some(Some(Role::Collectable)), after) => assert!(
                        after == Some(Some(Role::Collectable))
                            || matches!(after, Some(Some(Role::Player { .. })))
                    ),
                }
            }
            // No entity is both sent back and tinted, or either twice.
            let mut subjects = Vec::new();
            for effect in &tick.effects {
                match effect {
                    Effect::Respawn { entity, .. } | Effect::Tint { entity } => {
                        assert!(!subjects.contains(entity));
                        subjects.push(*entity);
                    }
                    Effect::Despawn { entity } => assert!(!world.contains(*entity)),
                }
            }
        }
    }
}

#[test]
fn without_a_party_zone_walls_never_end_the_game() {
    let mut dice = Dice(7);
    for _ in 0..100 {
        let mut world: World<u64> = World::new();
        let mut session = Session::new();
        let mut wall: Entity<u64> = Entity::bare(EntityId(WALL));
        wall.kill_wall = true;
        world.spawn(wall);
        register(&mut world, &mut session, EntityId(0), "Player", 0, false);
        for id in 1..ANIMALS {
            let name = if dice.roll(3) == 0 { "Player" } else { "Collectable" };
            register(&mut world, &mut session, EntityId(id), name, id, false);
        }
        register(&mut world, &mut session, EntityId(902), "Goal", 0, true);
        for _ in 0..60 {
            let contacts = batch(&mut dice);
            let tick = advance(&mut world, &mut session, &Vec::new(), &contacts);
            assert!(world.count(Tag::Player) >= 1);
            assert_eq!(session.state(), AppState::InGame);
            assert_eq!(tick.final_score, None);
            assert_eq!(session.despawned_count(), 0);
        }
    }
}
