use herding::entity::{Entity, EntityId, Role, Tag};
use herding::herd::{camera_focus, release_strays, roster, CAMERA_DISTANCE, CHARACTER_SPEED, LEASH_RADIUS};
use herding::input::{keyboard, Keys, Steps};
use herding::world::World;

const NONE: Keys =
    Keys { up: false, down: false, left: false, right: false, w: false, s: false, a: false, d: false };

fn animal(id: u64, role: Option<Role<u8>>) -> Entity<u8> {
    Entity { id: EntityId(id), role, kill_wall: false, party_zone: None, in_scene: true }
}

#[test]
fn no_key_no_steering() {
    assert_eq!(keyboard(&NONE), Steps { x: 0, z: 0 });
}

#[test]
fn each_key_steers_one_step() {
    assert_eq!(keyboard(&Keys { up: true, ..NONE }), Steps { x: 0, z: -1 });
    assert_eq!(keyboard(&Keys { down: true, ..NONE }), Steps { x: 0, z: 1 });
    assert_eq!(keyboard(&Keys { left: true, ..NONE }), Steps { x: -1, z: 0 });
    assert_eq!(keyboard(&Keys { right: true, ..NONE }), Steps { x: 1, z: 0 });
    assert_eq!(keyboard(&Keys { w: true, ..NONE }), Steps { x: 0, z: -1 });
    assert_eq!(keyboard(&Keys { s: true, ..NONE }), Steps { x: 0, z: 1 });
    assert_eq!(keyboard(&Keys { a: true, ..NONE }), Steps { x: -1, z: 0 });
    assert_eq!(keyboard(&Keys { d: true, ..NONE }), Steps { x: 1, z: 0 });
}

#[test]
fn the_two_sets_of_keys_are_summed() {
    assert_eq!(keyboard(&Keys { up: true, w: true, ..NONE }), Steps { x: 0, z: -2 });
    assert_eq!(keyboard(&Keys { right: true, d: true, down: true, ..NONE }), Steps { x: 2, z: 1 });
    assert_eq!(keyboard(&Keys { left: true, a: true, s: true, down: true, ..NONE }), Steps { x: -2, z: 2 });
}

#[test]
fn opposite_keys_cancel() {
    assert_eq!(keyboard(&Keys { up: true, down: true, ..NONE }), Steps { x: 0, z: 0 });
    assert_eq!(keyboard(&Keys { left: true, d: true, ..NONE }), Steps { x: 0, z: 0 });
    let all = Keys { up: true, down: true, left: true, right: true, w: true, s: true, a: true, d: true };
    assert_eq!(keyboard(&all), Steps { x: 0, z: 0 });
}

#[test]
fn the_constants_of_the_herd() {
    assert_eq!(LEASH_RADIUS, 20);
    assert_eq!(CAMERA_DISTANCE, 50);
    assert_eq!(CHARACTER_SPEED, 12);
}

#[test]
fn strays_lose_their_role() {
    let mut world: World<u8> = World::new();
    world.spawn(animal(1, Some(Role::Player { spawn_position: 1 })));
    world.spawn(animal(2, Some(Role::Player { spawn_position: 2 })));
    world.spawn(animal(3, Some(Role::Collectable)));
    world.spawn(animal(4, Some(Role::PartyAnimal)));
    let gone = release_strays(&mut world, &vec![EntityId(2), EntityId(3), EntityId(4), EntityId(9), EntityId(2)]);
    assert_eq!(gone, 1);
    assert_eq!(world.role_of(EntityId(2)), None);
    assert!(world.contains(EntityId(2)));
    assert!(world.has(EntityId(1), Tag::Player));
    assert!(world.has(EntityId(3), Tag::Collectable));
    assert!(world.has(EntityId(4), Tag::PartyAnimal));
    assert_eq!(world.len(), 4);
}

#[test]
fn the_leash_can_empty_the_roster() {
    let mut world: World<u8> = World::new();
    world.spawn(animal(1, Some(Role::Player { spawn_position: 1 })));
    assert_eq!(release_strays(&mut world, &vec![EntityId(1)]), 1);
    assert_eq!(world.count(Tag::Player), 0);
    assert_eq!(release_strays(&mut world, &Vec::new()), 0);
}

#[test]
fn the_roster_lists_the_players_in_world_order() {
    let mut world: World<u8> = World::new();
    world.spawn(animal(5, Some(Role::Player { spawn_position: 0 })));
    world.spawn(animal(3, Some(Role::Collectable)));
    world.spawn(animal(4, Some(Role::Player { spawn_position: 0 })));
    assert_eq!(roster(&world), vec![EntityId(5), EntityId(4)]);
}

#[test]
fn the_camera_holds_when_nobody_is_left() {
    let mut world: World<u8> = World::new();
    assert_eq!(camera_focus(&world), None);
    world.spawn(animal(3, Some(Role::Collectable)));
    assert_eq!(camera_focus(&world), None);
    world.spawn(animal(4, Some(Role::Player { spawn_position: 0 })));
    assert_eq!(camera_focus(&world), Some(vec![EntityId(4)]));
}
