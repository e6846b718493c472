use herding::contact::Contact;
use herding::effect::Effect;
use herding::entity::{Entity, EntityId, Role, Tag};
use herding::flow::{advance, transition, AppState, Restart, Session, Signal};
use herding::roster::score;
use herding::scene::{register, SceneKind};
use herding::text::BannerPlace;
use herding::world::World;

type Point = (f32, f32, f32);

const ORIGIN: Point = (0.0, 0.0, 0.0);

fn touch(a: u64, b: u64) -> Contact<Point> {
    Contact { first: EntityId(a), second: EntityId(b), first_position: ORIGIN, second_position: ORIGIN }
}

fn wall(id: u64) -> Entity<Point> {
    Entity { id: EntityId(id), role: None, kill_wall: true, party_zone: None, in_scene: false }
}

#[test]
fn the_states_form_one_cycle() {
    assert_eq!(transition(AppState::MainMenu, Signal::GoalReady), AppState::InGame);
    assert_eq!(transition(AppState::InGame, Signal::RosterEmpty), AppState::GameOver);
    assert_eq!(transition(AppState::GameOver, Signal::ButtonPressed), AppState::MainMenu);
}

#[test]
fn a_signal_that_a_state_does_not_wait_for_changes_nothing() {
    let states = [AppState::MainMenu, AppState::InGame, AppState::GameOver];
    let signals = [Signal::GoalReady, Signal::RosterEmpty, Signal::ButtonPressed];
    for (i, state) in states.iter().enumerate() {
        for (j, signal) in signals.iter().enumerate() {
            if i != j {
                assert_eq!(transition(*state, *signal), *state);
            }
        }
    }
}

#[test]
fn a_session_starts_in_the_main_menu_with_nothing_counted() {
    let session = Session::new();
    assert_eq!(session.state(), AppState::MainMenu);
    assert_eq!(session.despawned_count(), 0);
    assert_eq!(session.scene_root(), None);
    assert_eq!(session.ui_root(), None);
}

#[test]
fn the_goal_starts_the_game_once() {
    let mut session = Session::new();
    assert!(session.goal_ready());
    assert_eq!(session.state(), AppState::InGame);
    assert!(!session.goal_ready());
    assert_eq!(session.state(), AppState::InGame);
}

#[test]
fn the_session_remembers_the_roots_it_is_told() {
    let mut session = Session::new();
    session.scene_spawned(EntityId(11));
    session.ui_built(EntityId(12));
    assert_eq!(session.scene_root(), Some(EntityId(11)));
    assert_eq!(session.ui_root(), Some(EntityId(12)));
    assert_eq!(session.state(), AppState::MainMenu);
}

#[test]
fn ticks_outside_a_running_game_change_nothing() {
    let mut world: World<Point> = World::new();
    let mut session = Session::new();
    register(&mut world, &mut session, EntityId(1), "Player", ORIGIN, false);
    register(&mut world, &mut session, EntityId(2), "PartyZone", ORIGIN, true);
    let tick = advance(&mut world, &mut session, &vec![EntityId(1)], &vec![touch(1, 2)]);
    assert!(tick.effects.is_empty());
    assert_eq!(tick.final_score, None);
    assert_eq!(session.state(), AppState::MainMenu);
    assert!(world.has(EntityId(1), Tag::Player));
    assert_eq!(session.despawned_count(), 0);
}

#[test]
fn the_game_is_over_when_the_roster_is_empty() {
    let mut world: World<Point> = World::new();
    let mut session = Session::new();
    session.goal_ready();
    assert_eq!(session.check_game_over(&world), Some(0));
    assert_eq!(session.state(), AppState::GameOver);
    assert_eq!(session.check_game_over(&world), None);
    assert_eq!(session.state(), AppState::GameOver);

    let mut session = Session::new();
    assert_eq!(session.check_game_over(&world), None);
    assert_eq!(session.state(), AppState::MainMenu);

    let mut session = Session::new();
    session.goal_ready();
    register(&mut world, &mut session, EntityId(1), "Player", ORIGIN, false);
    assert_eq!(session.check_game_over(&world), None);
    assert_eq!(session.state(), AppState::InGame);
}

#[test]
fn from_main_menu_to_game_over_and_back() {
    let mut world: World<Point> = World::new();
    let mut session = Session::new();
    world.spawn(wall(900));
    session.scene_spawned(EntityId(800));
    assert_eq!(session.state(), AppState::MainMenu);

    // The scene arrives; the goal starts the game.
    assert_eq!(register(&mut world, &mut session, EntityId(1), "Player", (0.0, 0.0, 0.0), false), SceneKind::Player);
    assert_eq!(register(&mut world, &mut session, EntityId(2), "Collectable.001", (2.0, 0.0, 2.0), false), SceneKind::Collectable);
    assert_eq!(register(&mut world, &mut session, EntityId(3), "PartyZone", (0.0, 1.0, 9.0), true), SceneKind::PartyZone);
    assert_eq!(session.state(), AppState::MainMenu);
    assert_eq!(register(&mut world, &mut session, EntityId(4), "Goal", ORIGIN, true), SceneKind::Goal);
    assert_eq!(session.state(), AppState::InGame);

    // The collectable at (2, 0, 2) touches the player.
    let pickup = Contact {
        first: EntityId(2),
        second: EntityId(1),
        first_position: (2.0, 0.0, 2.0),
        second_position: (1.5, 0.0, 2.0),
    };
    let tick = advance(&mut world, &mut session, &Vec::new(), &vec![pickup]);
    assert!(tick.effects.is_empty());
    assert_eq!(tick.final_score, None);
    assert_eq!(world.role_of(EntityId(2)), Some(Role::Player { spawn_position: (2.0, 0.0, 2.0) }));
    assert!(!world.has(EntityId(2), Tag::Collectable));
    assert_eq!(world.count(Tag::Player), 2);

    // The same entity reaches the party zone.
    let tick = advance(&mut world, &mut session, &Vec::new(), &vec![touch(2, 3)]);
    assert_eq!(tick.effects, vec![Effect::Tint { entity: EntityId(2) }]);
    assert_eq!(tick.final_score, None);
    assert!(world.has(EntityId(2), Tag::PartyAnimal));
    assert_eq!(world.count(Tag::Player), 1);
    assert_eq!(session.state(), AppState::InGame);

    // The last player strays from the herd: no player is left.
    let tick = advance(&mut world, &mut session, &vec![EntityId(1)], &Vec::new());
    assert!(tick.effects.is_empty());
    assert_eq!(tick.final_score, Some(1));
    assert_eq!(world.count(Tag::Player), 0);
    assert_eq!(session.state(), AppState::GameOver);
    assert_eq!(score(&world, &session), 1);
    assert_eq!(session.despawned_count(), 0);

    // Without a press nothing happens; a press starts over.
    assert_eq!(session.restart(&mut world, false), None);
    assert_eq!(session.state(), AppState::GameOver);
    assert_eq!(session.restart(&mut world, true), Some(Restart { scene_root: Some(EntityId(800)) }));
    assert_eq!(session.state(), AppState::MainMenu);
    assert_eq!(session.despawned_count(), 0);
    assert_eq!(session.scene_root(), None);
    assert_eq!(world.len(), 1);
    assert!(world.has(EntityId(900), Tag::KillWall));
}

#[test]
fn restart_puts_the_removed_count_back_to_zero() {
    let mut world: World<Point> = World::new();
    let mut session = Session::new();
    register(&mut world, &mut session, EntityId(500), "PartyZone", ORIGIN, true);
    for id in 1..=13 {
        register(&mut world, &mut session, EntityId(id), "Player", ORIGIN, false);
    }
    register(&mut world, &mut session, EntityId(600), "Goal", ORIGIN, true);
    let mut last_tick_score = None;
    for id in 1..=13 {
        let tick = advance(&mut world, &mut session, &Vec::new(), &vec![touch(id, 500)]);
        last_tick_score = tick.final_score;
    }
    assert_eq!(session.despawned_count(), 2);
    assert_eq!(world.count(Tag::PartyAnimal), 11);
    assert_eq!(last_tick_score, Some(13));
    assert_eq!(session.state(), AppState::GameOver);
    assert_eq!(session.restart(&mut world, true), Some(Restart { scene_root: None }));
    assert_eq!(session.state(), AppState::MainMenu);
    assert_eq!(session.despawned_count(), 0);
    assert_eq!(world.len(), 0);
}

#[test]
fn a_press_restarts_only_after_a_game() {
    let mut world: World<Point> = World::new();
    let mut session = Session::new();
    register(&mut world, &mut session, EntityId(1), "Player", ORIGIN, false);
    assert_eq!(session.restart(&mut world, true), None);
    assert_eq!(session.state(), AppState::MainMenu);
    session.goal_ready();
    assert_eq!(session.restart(&mut world, true), None);
    assert_eq!(session.state(), AppState::InGame);
    assert_eq!(world.len(), 1);
}

#[test]
fn score_and_removed_count_never_fall_while_the_game_runs() {
    let mut world: World<Point> = World::new();
    let mut session = Session::new();
    world.spawn(wall(900));
    register(&mut world, &mut session, EntityId(500), "PartyZone", ORIGIN, true);
    register(&mut world, &mut session, EntityId(1), "Player", ORIGIN, false);
    for id in 2..=30 {
        register(&mut world, &mut session, EntityId(id), "Collectable", ORIGIN, false);
    }
    register(&mut world, &mut session, EntityId(600), "Goal", ORIGIN, true);
    let mut last_score = score(&world, &session);
    let mut last_removed = session.despawned_count();
    for id in 2..=30u64 {
        let batches = [
            (vec![], vec![touch(id, id - 1)]),
            (vec![], vec![touch(id - 1, 900), touch(id, 900)]),
            (vec![EntityId(id + 1)], vec![touch(id - 1, 500), touch(500, id - 1)]),
            (vec![EntityId(id - 1)], vec![]),
        ];
        for (strays, contacts) in batches {
            advance(&mut world, &mut session, &strays, &contacts);
            assert_eq!(session.state(), AppState::InGame);
            let now = score(&world, &session);
            assert!(now >= last_score);
            assert!(session.despawned_count() >= last_removed);
            assert!(world.count(Tag::Player) >= 1);
            last_score = now;
            last_removed = session.despawned_count();
        }
    }
}

#[test]
fn the_text_is_refreshed_for_the_state_entered() {
    let mut world: World<Point> = World::new();
    let mut session = Session::new();
    let ui = session.refresh_ui(&world);
    assert_eq!(ui.discard, None);
    assert_eq!(ui.text, "Press any button to start!");
    assert_eq!(ui.place, BannerPlace::Center);
    session.ui_built(EntityId(70));

    session.goal_ready();
    let ui = session.refresh_ui(&world);
    assert_eq!(ui.discard, Some(EntityId(70)));
    assert_eq!(ui.text, "Combine your animal herd and take them to the exit!");
    assert_eq!(ui.place, BannerPlace::Edge);
    assert_eq!(session.ui_root(), None);
    session.ui_built(EntityId(71));

    world.spawn(Entity {
        id: EntityId(1),
        role: Some(Role::PartyAnimal),
        kill_wall: false,
        party_zone: None,
        in_scene: true,
    });
    assert_eq!(session.check_game_over(&world), Some(1));
    let ui = session.refresh_ui(&world);
    assert_eq!(ui.discard, Some(EntityId(71)));
    assert_eq!(
        ui.text,
        "Congrats! You got 1 out of a possible 1 animals to the exit! Press any key/button to try again :)"
    );
    assert_eq!(ui.place, BannerPlace::Center);
}
