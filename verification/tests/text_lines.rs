use herding::flow::AppState;
use herding::text::{banner, banner_place, chars_of, contains_text, push_decimal, same_text, BannerPlace};

fn written(n: u64) -> String {
    let mut out = String::new();
    push_decimal(&mut out, n);
    out
}

#[test]
fn numbers_are_written_in_base_ten() {
    assert_eq!(written(0), "0");
    assert_eq!(written(7), "7");
    assert_eq!(written(10), "10");
    assert_eq!(written(109), "109");
    assert_eq!(written(1234567890), "1234567890");
    assert_eq!(written(u64::MAX), "18446744073709551615");
}

#[test]
fn numbers_are_appended_to_what_is_there() {
    let mut out = String::from("n=");
    push_decimal(&mut out, 42);
    push_decimal(&mut out, 0);
    assert_eq!(out, "n=420");
}

#[test]
fn every_number_reads_back() {
    for n in (0..5000u64).chain([99_999, 100_000, 4_294_967_295, 4_294_967_296]) {
        assert_eq!(written(n).parse::<u64>(), Ok(n));
    }
}

#[test]
fn chars_of_gives_the_characters() {
    assert_eq!(chars_of(""), Vec::<char>::new());
    assert_eq!(chars_of("Goal"), vec!['G', 'o', 'a', 'l']);
    assert_eq!(chars_of("häre"), vec!['h', 'ä', 'r', 'e']);
}

#[test]
fn contains_text_finds_runs_of_characters() {
    assert!(contains_text("Player", "Player"));
    assert!(contains_text("xxPlayer", "Player"));
    assert!(contains_text("Playerxx", "Player"));
    assert!(contains_text("PlPlayer", "Player"));
    assert!(!contains_text("Playe", "Player"));
    assert!(!contains_text("P l a y e r", "Player"));
    assert!(!contains_text("", "Player"));
    assert!(contains_text("", ""));
    assert!(contains_text("abc", ""));
    assert!(contains_text("aab", "ab"));
    assert!(!contains_text("aba", "bb"));
}

#[test]
fn same_text_compares_character_by_character() {
    assert!(same_text("", ""));
    assert!(same_text("Goal", "Goal"));
    assert!(!same_text("Goal", "Goa"));
    assert!(!same_text("Goa", "Goal"));
    assert!(!same_text("Goal", "Gaol"));
    assert!(!same_text("Goal", "goal"));
}

#[test]
fn each_state_has_its_line() {
    assert_eq!(banner(AppState::MainMenu, 3, 9), "Press any button to start!");
    assert_eq!(banner(AppState::InGame, 3, 9), "Combine your animal herd and take them to the exit!");
    assert_eq!(
        banner(AppState::GameOver, 3, 9),
        "Congrats! You got 3 out of a possible 9 animals to the exit! Press any key/button to try again :)"
    );
}

#[test]
fn the_game_counts_as_won_when_exactly_one_animal_is_missing() {
    let won = "WOW! You got all the animals! You win the game for sure! Press any key/button to try again :)";
    assert_eq!(banner(AppState::GameOver, 8, 9), won);
    assert_eq!(banner(AppState::GameOver, 0, 1), won);
    assert_eq!(banner(AppState::GameOver, u64::MAX - 1, u64::MAX), won);
    assert_eq!(
        banner(AppState::GameOver, 9, 9),
        "Congrats! You got 9 out of a possible 9 animals to the exit! Press any key/button to try again :)"
    );
    assert_eq!(
        banner(AppState::GameOver, 0, 0),
        "Congrats! You got 0 out of a possible 0 animals to the exit! Press any key/button to try again :)"
    );
    assert_eq!(
        banner(AppState::GameOver, 10, 9),
        "Congrats! You got 10 out of a possible 9 animals to the exit! Press any key/button to try again :)"
    );
    assert_eq!(
        banner(AppState::GameOver, u64::MAX, 0),
        "Congrats! You got 18446744073709551615 out of a possible 0 animals to the exit! Press any key/button to try again :)"
    );
}

#[test]
fn only_the_running_game_shows_its_line_at_the_edge() {
    assert_eq!(banner_place(AppState::MainMenu), BannerPlace::Center);
    assert_eq!(banner_place(AppState::InGame), BannerPlace::Edge);
    assert_eq!(banner_place(AppState::GameOver), BannerPlace::Center);
}
