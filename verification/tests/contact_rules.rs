use herding::contact::{
    apply_transitions, classify_contacts, kill_reset, pick_up, resolve_contacts, Change, Contact,
    Transition,
};
use herding::effect::Effect;
use herding::entity::{Entity, EntityId, Role, Tag};
use herding::flow::{AppState, Session};
use herding::roster::{deliver, score, DISPLAY_CAP};
use herding::world::World;

type Point = (f32, f32, f32);

const ORIGIN: Point = (0.0, 0.0, 0.0);

fn animal(id: u64, role: Option<Role<Point>>) -> Entity<Point> {
    Entity { id: EntityId(id), role, kill_wall: false, party_zone: None, in_scene: true }
}

fn player_from(id: u64, spawn: Point) -> Entity<Point> {
    animal(id, Some(Role::Player { spawn_position: spawn }))
}

fn wall(id: u64) -> Entity<Point> {
    Entity { id: EntityId(id), role: None, kill_wall: true, party_zone: None, in_scene: false }
}

fn zone(id: u64) -> Entity<Point> {
    Entity { id: EntityId(id), role: None, kill_wall: false, party_zone: Some(ORIGIN), in_scene: true }
}

fn touch(a: u64, b: u64) -> Contact<Point> {
    Contact { first: EntityId(a), second: EntityId(b), first_position: ORIGIN, second_position: ORIGIN }
}

fn running() -> Session {
    let mut session = Session::new();
    assert!(session.goal_ready());
    session
}

/// A world with a party zone 500 and `seen` party animals 1000, 1001, ...
fn party_of(seen: u64) -> World<Point> {
    let mut world: World<Point> = World::new();
    world.spawn(zone(500));
    for k in 0..seen {
        world.spawn(animal(1000 + k, Some(Role::PartyAnimal)));
    }
    world
}

#[test]
fn pickup_records_where_the_collectable_was() {
    let mut world: World<Point> = World::new();
    world.spawn(player_from(1, ORIGIN));
    world.spawn(animal(2, Some(Role::Collectable)));
    let mut session = running();
    let contact = Contact {
        first: EntityId(2),
        second: EntityId(1),
        first_position: (2.0, 0.0, 2.0),
        second_position: (9.0, 9.0, 9.0),
    };
    let effects = resolve_contacts(&mut world, &mut session, &vec![contact]);
    assert!(effects.is_empty());
    assert_eq!(world.role_of(EntityId(2)), Some(Role::Player { spawn_position: (2.0, 0.0, 2.0) }));
    assert!(!world.has(EntityId(2), Tag::Collectable));
    assert_eq!(world.count(Tag::Player), 2);
    assert_eq!(world.count(Tag::Collectable), 0);
}

#[test]
fn pickup_works_whichever_side_the_collectable_is_on() {
    let mut world: World<Point> = World::new();
    world.spawn(player_from(1, ORIGIN));
    world.spawn(animal(2, Some(Role::Collectable)));
    let mut session = running();
    let contact = Contact {
        first: EntityId(1),
        second: EntityId(2),
        first_position: (9.0, 9.0, 9.0),
        second_position: (5.0, 1.0, 5.0),
    };
    resolve_contacts(&mut world, &mut session, &vec![contact]);
    assert_eq!(world.role_of(EntityId(2)), Some(Role::Player { spawn_position: (5.0, 1.0, 5.0) }));
}

#[test]
fn two_collectables_do_not_pick_each_other_up() {
    let mut world: World<Point> = World::new();
    world.spawn(animal(1, Some(Role::Collectable)));
    world.spawn(animal(2, Some(Role::Collectable)));
    let mut session = running();
    let effects = resolve_contacts(&mut world, &mut session, &vec![touch(1, 2)]);
    assert!(effects.is_empty());
    assert_eq!(world.count(Tag::Collectable), 2);
    assert_eq!(world.count(Tag::Player), 0);
}

#[test]
fn pick_up_alone_needs_a_collectable() {
    let mut world: World<Point> = World::new();
    world.spawn(animal(1, Some(Role::PartyAnimal)));
    world.spawn(animal(2, Some(Role::Collectable)));
    assert!(!pick_up(&mut world, EntityId(1), ORIGIN));
    assert!(!pick_up(&mut world, EntityId(3), ORIGIN));
    assert!(pick_up(&mut world, EntityId(2), (1.0, 1.0, 1.0)));
    assert_eq!(world.role_of(EntityId(1)), Some(Role::PartyAnimal));
    assert_eq!(world.role_of(EntityId(2)), Some(Role::Player { spawn_position: (1.0, 1.0, 1.0) }));
}

#[test]
fn kill_wall_repositions_but_does_not_untag_the_last_player() {
    let mut world: World<Point> = World::new();
    world.spawn(player_from(1, (3.0, 4.0, 5.0)));
    world.spawn(wall(50));
    let mut session = running();
    let effects = resolve_contacts(&mut world, &mut session, &vec![touch(50, 1)]);
    assert_eq!(effects, vec![Effect::Respawn { entity: EntityId(1), at: (3.0, 4.0, 5.0) }]);
    assert!(world.has(EntityId(1), Tag::Player));
    assert_eq!(world.count(Tag::Player), 1);
    assert_eq!(session.state(), AppState::InGame);
}

#[test]
fn kill_wall_benches_a_player_of_a_larger_roster() {
    let mut world: World<Point> = World::new();
    world.spawn(player_from(1, (3.0, 4.0, 5.0)));
    world.spawn(player_from(2, ORIGIN));
    world.spawn(wall(50));
    let mut session = running();
    let effects = resolve_contacts(&mut world, &mut session, &vec![touch(1, 50)]);
    assert_eq!(effects, vec![Effect::Respawn { entity: EntityId(1), at: (3.0, 4.0, 5.0) }]);
    assert_eq!(world.role_of(EntityId(1)), None);
    assert!(world.contains(EntityId(1)));
    assert!(world.has(EntityId(2), Tag::Player));
    assert_eq!(world.count(Tag::Player), 1);
    assert_eq!(world.count(Tag::Collectable), 0);
}

#[test]
fn kill_walls_never_empty_the_roster_within_one_batch() {
    let mut world: World<Point> = World::new();
    world.spawn(player_from(1, (1.0, 0.0, 0.0)));
    world.spawn(player_from(2, (2.0, 0.0, 0.0)));
    world.spawn(player_from(3, (3.0, 0.0, 0.0)));
    world.spawn(wall(50));
    let mut session = running();
    let effects =
        resolve_contacts(&mut world, &mut session, &vec![touch(1, 50), touch(2, 50), touch(3, 50)]);
    assert_eq!(
        effects,
        vec![
            Effect::Respawn { entity: EntityId(1), at: (1.0, 0.0, 0.0) },
            Effect::Respawn { entity: EntityId(2), at: (2.0, 0.0, 0.0) },
            Effect::Respawn { entity: EntityId(3), at: (3.0, 0.0, 0.0) },
        ]
    );
    assert_eq!(world.tagged(Tag::Player), vec![EntityId(3)]);
}

#[test]
fn kill_reset_alone_tells_where_to_put_the_player() {
    let mut world: World<Point> = World::new();
    world.spawn(player_from(1, (7.0, 8.0, 9.0)));
    world.spawn(animal(2, Some(Role::Collectable)));
    assert_eq!(kill_reset(&mut world, EntityId(2)), None);
    assert_eq!(kill_reset(&mut world, EntityId(3)), None);
    assert_eq!(kill_reset(&mut world, EntityId(1)), Some((7.0, 8.0, 9.0)));
    assert!(world.has(EntityId(1), Tag::Player));
    assert!(world.has(EntityId(2), Tag::Collectable));
}

#[test]
fn party_entry_makes_a_party_animal_and_tints_it() {
    let mut world = party_of(0);
    world.spawn(player_from(1, ORIGIN));
    world.spawn(player_from(2, ORIGIN));
    let mut session = running();
    let effects = resolve_contacts(&mut world, &mut session, &vec![touch(1, 500)]);
    assert_eq!(effects, vec![Effect::Tint { entity: EntityId(1) }]);
    assert_eq!(world.role_of(EntityId(1)), Some(Role::PartyAnimal));
    assert_eq!(world.count(Tag::Player), 1);
    assert_eq!(world.count(Tag::PartyAnimal), 1);
    assert_eq!(session.despawned_count(), 0);
    assert_eq!(score(&world, &session), 1);
}

#[test]
fn delivery_up_to_the_cap_removes_nobody() {
    assert_eq!(DISPLAY_CAP, 10);
    let mut world = party_of(10);
    world.spawn(player_from(1, ORIGIN));
    let mut session = running();
    let effects = resolve_contacts(&mut world, &mut session, &vec![touch(500, 1)]);
    assert_eq!(effects, vec![Effect::Tint { entity: EntityId(1) }]);
    assert_eq!(world.count(Tag::PartyAnimal), 11);
    assert_eq!(session.despawned_count(), 0);
    assert_eq!(score(&world, &session), 11);
}

#[test]
fn delivery_above_the_cap_removes_exactly_the_oldest() {
    let mut world = party_of(11);
    world.spawn(player_from(1, ORIGIN));
    let mut session = running();
    let before = score(&world, &session);
    let effects = resolve_contacts(&mut world, &mut session, &vec![touch(500, 1)]);
    assert_eq!(
        effects,
        vec![Effect::Despawn { entity: EntityId(1000) }, Effect::Tint { entity: EntityId(1) }]
    );
    assert!(!world.contains(EntityId(1000)));
    for k in 1..11 {
        assert!(world.has(EntityId(1000 + k), Tag::PartyAnimal));
    }
    assert!(world.has(EntityId(1), Tag::PartyAnimal));
    assert_eq!(world.count(Tag::PartyAnimal), 11);
    assert_eq!(session.despawned_count(), 1);
    assert_eq!(score(&world, &session), before + 1);
    assert_eq!(world.oldest(Tag::PartyAnimal), Some(EntityId(1001)));
}

#[test]
fn the_party_leaves_in_the_order_in_which_it_came() {
    let mut world = party_of(0);
    for id in 1..=14 {
        world.spawn(player_from(id, ORIGIN));
    }
    let mut session = running();
    let mut removed = Vec::new();
    for id in 1..=14 {
        let effects = resolve_contacts(&mut world, &mut session, &vec![touch(id, 500)]);
        for effect in effects {
            if let Effect::Despawn { entity } = effect {
                removed.push(entity);
            }
        }
        assert_eq!(score(&world, &session), id);
        assert!(world.count(Tag::PartyAnimal) <= DISPLAY_CAP + 1);
    }
    assert_eq!(removed, vec![EntityId(1), EntityId(2), EntityId(3)]);
    assert_eq!(session.despawned_count(), 3);
    assert_eq!(world.count(Tag::PartyAnimal), 11);
    assert_eq!(world.count(Tag::Player), 0);
}

#[test]
fn deliver_alone_ignores_what_is_not_a_player() {
    let mut world = party_of(2);
    world.spawn(animal(1, Some(Role::Collectable)));
    let mut session = running();
    let mut effects = Vec::new();
    deliver(&mut world, &mut session, &mut effects, EntityId(1));
    deliver(&mut world, &mut session, &mut effects, EntityId(1000));
    deliver(&mut world, &mut session, &mut effects, EntityId(77));
    assert!(effects.is_empty());
    assert_eq!(world.count(Tag::PartyAnimal), 2);
    assert_eq!(world.tagged(Tag::PartyAnimal), vec![EntityId(1000), EntityId(1001)]);
    assert!(world.has(EntityId(1), Tag::Collectable));
}

#[test]
fn deliver_adds_to_the_effects_it_is_given() {
    let mut world = party_of(11);
    world.spawn(player_from(1, ORIGIN));
    let mut session = running();
    let mut effects = vec![Effect::Tint { entity: EntityId(9) }];
    deliver(&mut world, &mut session, &mut effects, EntityId(1));
    assert_eq!(
        effects,
        vec![
            Effect::Tint { entity: EntityId(9) },
            Effect::Despawn { entity: EntityId(1000) },
            Effect::Tint { entity: EntityId(1) },
        ]
    );
}

#[test]
fn rules_read_the_world_as_it_was_when_the_batch_began() {
    let mut world = party_of(0);
    world.spawn(player_from(1, ORIGIN));
    world.spawn(animal(2, Some(Role::Collectable)));
    let mut session = running();
    // The player is delivered first; the collectable that touched it in the
    // same batch is still picked up.
    let effects = resolve_contacts(&mut world, &mut session, &vec![touch(1, 500), touch(2, 1)]);
    assert_eq!(effects, vec![Effect::Tint { entity: EntityId(1) }]);
    assert!(world.has(EntityId(1), Tag::PartyAnimal));
    assert!(world.has(EntityId(2), Tag::Player));
}

#[test]
fn a_collectable_picked_up_in_a_batch_is_not_delivered_in_it() {
    let mut world = party_of(0);
    world.spawn(player_from(1, ORIGIN));
    world.spawn(animal(2, Some(Role::Collectable)));
    let mut session = running();
    let effects = resolve_contacts(&mut world, &mut session, &vec![touch(2, 1), touch(2, 500)]);
    assert!(effects.is_empty());
    assert!(world.has(EntityId(2), Tag::Player));
    assert_eq!(world.count(Tag::PartyAnimal), 0);
}

#[test]
fn the_first_transition_of_an_entity_wins() {
    let mut world = party_of(0);
    world.spawn(player_from(1, (1.0, 1.0, 1.0)));
    world.spawn(player_from(2, ORIGIN));
    world.spawn(wall(50));
    let mut session = running();
    let effects = resolve_contacts(&mut world, &mut session, &vec![touch(1, 50), touch(1, 500)]);
    assert_eq!(effects, vec![Effect::Respawn { entity: EntityId(1), at: (1.0, 1.0, 1.0) }]);
    assert_eq!(world.role_of(EntityId(1)), None);
    assert_eq!(world.count(Tag::PartyAnimal), 0);

    let mut world = party_of(0);
    world.spawn(player_from(1, (1.0, 1.0, 1.0)));
    world.spawn(player_from(2, ORIGIN));
    world.spawn(wall(50));
    let mut session = running();
    let effects = resolve_contacts(&mut world, &mut session, &vec![touch(1, 500), touch(1, 50)]);
    assert_eq!(effects, vec![Effect::Tint { entity: EntityId(1) }]);
    assert_eq!(world.role_of(EntityId(1)), Some(Role::PartyAnimal));
}

#[test]
fn one_contact_can_set_off_two_rules() {
    let mut world: World<Point> = World::new();
    world.spawn(player_from(1, (1.0, 0.0, 1.0)));
    world.spawn(player_from(3, ORIGIN));
    let mut trap = animal(2, Some(Role::Collectable));
    trap.kill_wall = true;
    world.spawn(trap);
    let contact = Contact {
        first: EntityId(1),
        second: EntityId(2),
        first_position: ORIGIN,
        second_position: (6.0, 0.0, 6.0),
    };
    let listed = classify_contacts(&world, &vec![contact]);
    assert_eq!(
        listed,
        vec![
            Transition { entity: EntityId(2), change: Change::Pickup { at: (6.0, 0.0, 6.0) } },
            Transition { entity: EntityId(1), change: Change::KillReset },
        ]
    );
    let mut session = running();
    let effects = apply_transitions(&mut world, &mut session, &listed);
    assert_eq!(effects, vec![Effect::Respawn { entity: EntityId(1), at: (1.0, 0.0, 1.0) }]);
    assert!(world.has(EntityId(2), Tag::Player));
    assert_eq!(world.role_of(EntityId(1)), None);
}

#[test]
fn a_wall_that_is_also_a_zone_sends_back_before_it_lets_in() {
    let mut world: World<Point> = World::new();
    world.spawn(player_from(1, ORIGIN));
    let mut both = zone(2);
    both.kill_wall = true;
    world.spawn(both);
    let listed = classify_contacts(&world, &vec![touch(2, 1)]);
    assert_eq!(
        listed,
        vec![
            Transition { entity: EntityId(1), change: Change::KillReset },
            Transition { entity: EntityId(1), change: Change::PartyEntry },
        ]
    );
    let mut session = running();
    let effects = apply_transitions(&mut world, &mut session, &listed);
    assert_eq!(effects, vec![Effect::Respawn { entity: EntityId(1), at: ORIGIN }]);
    assert!(world.has(EntityId(1), Tag::Player));
}

#[test]
fn contacts_with_unknown_or_untagged_entities_do_nothing() {
    let mut world = party_of(1);
    world.spawn(player_from(1, ORIGIN));
    world.spawn(animal(2, None));
    world.spawn(wall(50));
    let mut session = running();
    let contacts = vec![touch(77, 50), touch(2, 50), touch(2, 500), touch(1000, 50), touch(77, 78), touch(1, 2)];
    assert!(classify_contacts(&world, &contacts).is_empty());
    let effects = resolve_contacts(&mut world, &mut session, &contacts);
    assert!(effects.is_empty());
    assert_eq!(world.count(Tag::Player), 1);
    assert_eq!(world.count(Tag::PartyAnimal), 1);
    assert_eq!(world.len(), 5);
}

#[test]
fn an_empty_batch_changes_nothing() {
    let mut world = party_of(3);
    world.spawn(player_from(1, ORIGIN));
    let mut session = running();
    let effects = resolve_contacts(&mut world, &mut session, &Vec::new());
    assert!(effects.is_empty());
    assert_eq!(world.len(), 5);
    assert_eq!(score(&world, &session), 3);
}

#[test]
fn transitions_for_entities_that_changed_meanwhile_are_no_ops() {
    let mut world = party_of(0);
    world.spawn(animal(1, Some(Role::Collectable)));
    let mut session = running();
    let listed = vec![
        Transition { entity: EntityId(1), change: Change::KillReset },
        Transition { entity: EntityId(9), change: Change::PartyEntry },
        Transition { entity: EntityId(500), change: Change::Pickup { at: ORIGIN } },
    ];
    let effects = apply_transitions(&mut world, &mut session, &listed);
    assert!(effects.is_empty());
    assert!(world.has(EntityId(1), Tag::Collectable));
    assert_eq!(world.len(), 2);
}
