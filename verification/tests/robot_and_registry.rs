use rustfarm::event::{AppEvent, Command};
use rustfarm::registry::GameRegistry;
use rustfarm::robot::{
    countdown_commands, game_names, review_selection, take_game, unsupported_game, RobotError,
};

fn describe(c: &Command) -> String {
    match c {
        Command::Send(AppEvent::AddDebug(line)) => format!("debug:{}", line),
        Command::Send(AppEvent::UpdateStatus((s, m))) => format!("status:{}|{}", s, m),
        Command::Send(AppEvent::KeyPressed(_)) => "key".to_string(),
        Command::Tap(ch) => format!("tap:{:?}", ch),
        Command::Sleep(ms) => format!("sleep:{}", ms),
    }
}

#[test]
fn registered_names_come_out_sorted() {
    let mut games: GameRegistry<u32> = GameRegistry::new();
    for (i, name) in game_names().into_iter().enumerate() {
        assert_eq!(games.insert(name, i as u32), None);
    }
    assert_eq!(games.sorted_names(), vec!["apex", "siege", "xdefiant"]);
}

#[test]
fn sorting_follows_string_order() {
    let mut games: GameRegistry<()> = GameRegistry::new();
    let names = ["b", "ab", "a", "B", "é", "abc", ""];
    for n in names {
        games.insert(n, ());
    }
    let mut expected: Vec<String> = names.iter().map(|s| s.to_string()).collect();
    expected.sort();
    assert_eq!(games.sorted_names(), expected);
}

#[test]
fn inserting_again_replaces() {
    let mut games: GameRegistry<u32> = GameRegistry::new();
    assert_eq!(games.insert("siege", 1), None);
    assert_eq!(games.insert("siege", 2), Some(1));
    assert_eq!(games.sorted_names(), vec!["siege"]);
    assert_eq!(games.remove("siege"), Some(2));
    assert_eq!(games.remove("siege"), None);
    assert!(games.sorted_names().is_empty());
}

#[test]
fn taking_a_game() {
    let mut games: GameRegistry<&str> = GameRegistry::new();
    games.insert("siege", "robot");
    games.insert("apex", "other");
    assert_eq!(take_game(&mut games, "siege"), Ok("robot"));
    assert_eq!(take_game(&mut games, "siege"), Err(RobotError::GameNotFound));
    assert_eq!(take_game(&mut games, "exit (esc)"), Err(RobotError::GameNotFound));
    assert_eq!(RobotError::GameNotFound.message(), "Failed to find the game you're looking for!");
    assert_eq!(games.sorted_names(), vec!["apex"]);
}

#[test]
fn unsupported_games_are_refused() {
    assert!(unsupported_game("apex"));
    assert!(unsupported_game("xdefiant"));
    assert!(!unsupported_game("siege"));
    assert!(!unsupported_game("Apex"));
    let (accepted, cs) = review_selection("apex");
    assert!(!accepted);
    assert_eq!(cs.iter().map(describe).collect::<Vec<_>>(), vec!["status:Error|This game is not yet supported!"]);
    let (accepted, cs) = review_selection("xdefiant");
    assert!(!accepted);
    assert_eq!(cs.len(), 1);
}

#[test]
fn other_selections_start_the_robot() {
    for name in ["siege", "exit (esc)", ""] {
        let (accepted, cs) = review_selection(name);
        assert!(accepted);
        assert_eq!(
            cs.iter().map(describe).collect::<Vec<_>>(),
            vec!["status:Starting|Please quickly tab into the game you have selected."]
        );
    }
}

#[test]
fn countdown_from_five() {
    let cs = countdown_commands();
    assert_eq!(
        cs.iter().map(describe).collect::<Vec<_>>(),
        vec![
            "debug:Starting in 5...",
            "sleep:1000",
            "debug:Starting in 4...",
            "sleep:1000",
            "debug:Starting in 3...",
            "sleep:1000",
            "debug:Starting in 2...",
            "sleep:1000",
            "debug:Starting in 1...",
            "sleep:1000",
        ]
    );
}
