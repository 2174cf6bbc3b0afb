use rustfarm::event::{AppEvent, KeyCode, KeyInput, KeyKind};
use rustfarm::input::{poll_timeout, tick_is_over, TICK_RATE_NANOS};
use rustfarm::tui::{split_title, ExitTick, TuiState};

fn key(code: KeyCode, kind: KeyKind) -> AppEvent {
    AppEvent::KeyPressed(KeyInput { code, kind })
}

fn released(code: KeyCode) -> AppEvent {
    key(code, KeyKind::Release)
}

fn front_end() -> TuiState {
    TuiState::new(vec!["apex".to_string(), "siege".to_string(), "xdefiant".to_string()])
}

#[test]
fn new_front_end_adds_the_exit_entry() {
    let t = front_end();
    assert_eq!(t.menu_titles, vec!["apex", "siege", "xdefiant", "exit (esc)"]);
    assert_eq!(t.active_menu_item, 0);
    assert_eq!(t.status, "Inactive");
    assert_eq!(t.status_message, "Please select a game!");
    assert!(t.debug_console.is_empty());
    assert!(!t.exit);
    assert_eq!(t.exit_counter, 4);
}

#[test]
fn arrows_move_within_the_menu() {
    let mut t = front_end();
    assert_eq!(t.handle_event(released(KeyCode::Left), 1000), None);
    assert_eq!(t.active_menu_item, 0);
    for _ in 0..10 {
        t.handle_event(released(KeyCode::Right), 1000);
    }
    assert_eq!(t.active_menu_item, 3);
    t.handle_event(released(KeyCode::Left), 1000);
    assert_eq!(t.active_menu_item, 2);
}

#[test]
fn only_released_keys_count() {
    let mut t = front_end();
    t.handle_event(key(KeyCode::Right, KeyKind::Press), 1000);
    t.handle_event(key(KeyCode::Right, KeyKind::Repeat), 1000);
    assert_eq!(t.active_menu_item, 0);
    assert_eq!(t.handle_event(key(KeyCode::Enter, KeyKind::Press), 1000), None);
    assert_eq!(t.handle_event(released(KeyCode::Other), 1000), None);
}

#[test]
fn enter_selects_a_game_after_warm_up() {
    let mut t = front_end();
    t.handle_event(released(KeyCode::Right), 1000);
    assert_eq!(t.handle_event(released(KeyCode::Enter), 0), None);
    assert_eq!(t.handle_event(released(KeyCode::Enter), 1000), Some("siege".to_string()));
    assert!(!t.exit);
}

#[test]
fn enter_on_exit_starts_exiting_and_still_sends() {
    let mut t = front_end();
    t.handle_event(AppEvent::AddDebug("line".to_string()), 1000);
    for _ in 0..3 {
        t.handle_event(released(KeyCode::Right), 1000);
    }
    assert_eq!(t.handle_event(released(KeyCode::Enter), 1000), Some("exit (esc)".to_string()));
    assert!(t.exit);
    assert_eq!(t.status, "Exiting");
    assert_eq!(t.status_message, "Have a wonderful day!");
    assert!(t.debug_console.is_empty());
}

#[test]
fn enter_counts_from_half_a_second() {
    let mut t = front_end();
    assert_eq!(t.handle_event(released(KeyCode::Enter), 499), None);
    assert_eq!(t.handle_event(released(KeyCode::Enter), 500), Some("apex".to_string()));
    let mut t = front_end();
    for _ in 0..3 {
        t.handle_event(released(KeyCode::Right), 0);
    }
    assert_eq!(t.handle_event(released(KeyCode::Enter), 100), None);
    assert!(!t.exit);
    assert_eq!(t.status, "Inactive");
}

#[test]
fn escape_starts_exiting() {
    let mut t = front_end();
    assert_eq!(t.handle_event(released(KeyCode::Esc), 0), None);
    assert!(t.exit);
    assert_eq!(t.status, "Exiting");
}

#[test]
fn status_updates_clear_the_console() {
    let mut t = front_end();
    t.handle_event(AppEvent::AddDebug("one".to_string()), 1000);
    t.handle_event(AppEvent::AddDebug("two".to_string()), 1000);
    assert_eq!(t.debug_console, vec!["one", "two"]);
    t.handle_event(AppEvent::UpdateStatus(("Playing".to_string(), "You are in game.".to_string())), 1000);
    assert_eq!(t.status, "Playing");
    assert_eq!(t.status_message, "You are in game.");
    assert!(t.debug_console.is_empty());
}

#[test]
fn exit_countdown_then_quit() {
    let mut t = front_end();
    t.handle_event(released(KeyCode::Esc), 1000);
    for _ in 0..4 {
        assert_eq!(t.exit_tick(), ExitTick::Continue);
    }
    assert_eq!(t.debug_console, vec!["Exiting in 3...", "Exiting in 2...", "Exiting in 1...", "Stay cozy :3"]);
    assert_eq!(t.exit_counter, 0);
    assert_eq!(t.exit_tick(), ExitTick::Quit);
    assert_eq!(t.exit_tick(), ExitTick::Quit);
    assert_eq!(t.debug_console.len(), 4);
}

#[test]
fn body_shows_status_message_and_console() {
    let mut t = front_end();
    assert_eq!(t.body(), "<= Status: Inactive\n<= Message: Please select a game!\n\n<= Debug Console:\n");
    t.handle_event(AppEvent::AddDebug("Starting in 5...".to_string()), 1000);
    t.handle_event(AppEvent::AddDebug("Starting in 4...".to_string()), 1000);
    assert_eq!(
        t.body(),
        "<= Status: Inactive\n<= Message: Please select a game!\n\n<= Debug Console:\n<= - Starting in 5...\n<= - Starting in 4..."
    );
}

#[test]
fn titles_split_after_the_first_character() {
    assert_eq!(split_title("siege"), ("s", "iege"));
    assert_eq!(split_title("x"), ("x", ""));
    assert_eq!(split_title("exit (esc)"), ("e", "xit (esc)"));
}

#[test]
fn poll_waits_for_the_rest_of_the_tick() {
    assert_eq!(TICK_RATE_NANOS, 50_000_000);
    assert_eq!(poll_timeout(TICK_RATE_NANOS, 0), 50_000_000);
    assert_eq!(poll_timeout(TICK_RATE_NANOS, 20_000_000), 30_000_000);
    assert_eq!(poll_timeout(TICK_RATE_NANOS, 50_000_000), 0);
    assert_eq!(poll_timeout(TICK_RATE_NANOS, 70_000_000), 0);
    assert!(!tick_is_over(TICK_RATE_NANOS, 49_999_999));
    assert!(tick_is_over(TICK_RATE_NANOS, 50_000_000));
}
