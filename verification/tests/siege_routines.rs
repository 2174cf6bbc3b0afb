use rustfarm::event::{AppEvent, Command};
use rustfarm::games::{Game, Step};
use rustfarm::keys::{scan_code, tap_key, tap_steps, KeyStroke, TapStep};
use rustfarm::siege::{Probe, Routine, Siege};
use rustfarm::text::{decimal, key_debug};

fn describe(c: &Command) -> String {
    match c {
        Command::Send(AppEvent::AddDebug(line)) => format!("debug:{}", line),
        Command::Send(AppEvent::UpdateStatus((s, m))) => format!("status:{}|{}", s, m),
        Command::Send(AppEvent::KeyPressed(_)) => "key".to_string(),
        Command::Tap(ch) => format!("tap:{:?}", ch),
        Command::Sleep(ms) => format!("sleep:{}", ms),
    }
}

fn describe_all(cs: &[Command]) -> Vec<String> {
    cs.iter().map(describe).collect()
}

fn done(step: Step) -> Vec<String> {
    match step {
        Step::Done(cs) => describe_all(&cs),
        Step::Look(_, c) => panic!("expected the routine to finish, it asks for {}", c.image),
    }
}

fn look(step: &Step) -> (&'static str, u8, u8) {
    match step {
        Step::Look(_, c) => (c.image, c.confidence_percent, c.tolerance),
        Step::Done(_) => panic!("expected a screen check"),
    }
}

fn said_before_looking(step: &Step) -> Vec<String> {
    match step {
        Step::Look(cs, _) => describe_all(cs),
        Step::Done(_) => panic!("expected a screen check"),
    }
}

const STARTING: &str = "status:Starting|Starting the game...";

fn navigation() -> Vec<String> {
    let mut v = Vec::new();
    for (key, n) in [('W', 3u32), ('A', 3)] {
        for i in 1..=n {
            v.push(format!("debug:Pressing {:?} ({}/{})", key, i, n));
            v.push(format!("tap:{:?}", key));
            v.push("sleep:500".to_string());
        }
        v.push("sleep:500".to_string());
    }
    v.push("debug:Pressing 'S'".to_string());
    v.push("tap:'S'".to_string());
    v.push("sleep:500".to_string());
    for (key, n) in [('D', 3u32), ('A', 2)] {
        for i in 1..=n {
            v.push(format!("debug:Pressing {:?} ({}/{})", key, i, n));
            v.push(format!("tap:{:?}", key));
            v.push("sleep:500".to_string());
        }
        v.push("sleep:500".to_string());
    }
    for key in ['\n', 'D', '\n', '\n'] {
        v.push(format!("debug:Pressing {:?}", key));
        v.push(format!("tap:{:?}", key));
        v.push("sleep:500".to_string());
    }
    v
}

#[test]
fn scan_codes_of_the_tap_keys() {
    assert_eq!(scan_code('W'), 17);
    assert_eq!(scan_code('A'), 30);
    assert_eq!(scan_code('S'), 31);
    assert_eq!(scan_code('D'), 32);
    assert_eq!(scan_code('\n'), 28);
    assert!(tap_key('W'));
    assert!(!tap_key('w'));
    assert!(!tap_key('Q'));
}

#[test]
fn a_tap_is_down_hold_up() {
    assert_eq!(
        tap_steps('D'),
        vec![
            TapStep::Send(KeyStroke { scan_code: 32, key_up: false }),
            TapStep::Wait(50),
            TapStep::Send(KeyStroke { scan_code: 32, key_up: true }),
        ]
    );
}

#[test]
fn decimal_matches_display() {
    for n in [0u64, 1, 9, 10, 42, 305, 1000, 987654321, u64::MAX] {
        assert_eq!(decimal(n), n.to_string());
    }
}

#[test]
fn key_debug_matches_debug_formatting() {
    for ch in ['W', 'A', 'S', 'D', '\n'] {
        assert_eq!(key_debug(ch), format!("{:?}", ch));
    }
}

#[test]
fn press_buttons_logs_counts_and_pauses() {
    let cs = Siege::press_buttons('W', 3, Some(500), Some(700));
    assert_eq!(
        describe_all(&cs),
        vec![
            "debug:Pressing 'W' (1/3)",
            "tap:'W'",
            "sleep:500",
            "debug:Pressing 'W' (2/3)",
            "tap:'W'",
            "sleep:500",
            "debug:Pressing 'W' (3/3)",
            "tap:'W'",
            "sleep:500",
            "sleep:700",
        ]
    );
}

#[test]
fn press_buttons_without_delays_or_presses() {
    let cs = Siege::press_buttons('\n', 2, None, None);
    assert_eq!(
        describe_all(&cs),
        vec!["debug:Pressing '\\n' (1/2)", "tap:'\\n'", "debug:Pressing '\\n' (2/2)", "tap:'\\n'"]
    );
    assert!(Siege::press_buttons('A', 0, Some(1), None).is_empty());
    assert_eq!(describe_all(&Siege::press_buttons('A', 0, None, Some(9))), vec!["sleep:9"]);
}

#[test]
fn press_button_once() {
    let cs = Siege::press_button('S', Some(1500));
    assert_eq!(describe_all(&cs), vec!["debug:Pressing 'S'", "tap:'S'", "sleep:1500"]);
    let cs = Siege::press_button('D', None);
    assert_eq!(describe_all(&cs), vec!["debug:Pressing 'D'", "tap:'D'"]);
}

#[test]
fn images_are_listed_in_order() {
    assert_eq!(
        Siege::images(),
        vec!["siege/cogs.png", "siege/in_game_error.png", "siege/in_queue_alt.png", "siege/in_queue.png"]
    );
}

#[test]
fn screen_checks_of_each_probe() {
    let c = Siege::check_for(Probe::InQueue);
    assert_eq!((c.image, c.confidence_percent, c.tolerance), ("siege/in_queue.png", 85, 2));
    let c = Siege::check_for(Probe::InQueueAlt);
    assert_eq!((c.image, c.confidence_percent, c.tolerance), ("siege/in_queue_alt.png", 85, 2));
    let c = Siege::check_for(Probe::InMenu);
    assert_eq!((c.image, c.confidence_percent, c.tolerance), ("siege/cogs.png", 90, 10));
    let c = Siege::check_for(Probe::InError);
    assert_eq!((c.image, c.confidence_percent, c.tolerance), ("siege/in_game_error.png", 100, 1));
}

/// Carries out a whole routine the way the runner does, with the screen
/// answering each check from `screen`, and lists everything said and done.
fn run_routine(first: Step, robot: &mut Siege, screen: &[bool]) -> Vec<String> {
    let mut all = Vec::new();
    let mut step = first;
    let mut answers = screen.iter();
    loop {
        match step {
            Step::Look(cs, _) => {
                all.extend(describe_all(&cs));
                step = robot.observe(*answers.next().expect("more checks than answers"));
            }
            Step::Done(cs) => {
                all.extend(describe_all(&cs));
                return all;
            }
        }
    }
}

#[test]
fn startup_announces_itself_before_looking() {
    let mut s = Siege::init();
    let first = s.startup();
    assert_eq!(
        run_routine(first, &mut s, &[true]),
        vec![STARTING, "status:In Queue|Waiting to find a game..."]
    );
    let mut s = Siege::init();
    let first = s.startup();
    assert_eq!(
        run_routine(first, &mut s, &[false, false, false]),
        vec![STARTING, "status:Unusual|You weren't in the queue or the menu! Continuing..."]
    );
}

#[test]
fn startup_and_loop_from_the_menu_differ_only_at_the_ends() {
    let mut a = Siege::init();
    let first = a.startup();
    let startup = run_routine(first, &mut a, &[false, false, true]);
    let mut b = Siege::init();
    let first = b.game_loop();
    let round = run_routine(first, &mut b, &[false, false, true]);
    assert_eq!(startup[0], STARTING);
    assert_eq!(startup[1..], round[..round.len() - 1]);
    assert_eq!(round[round.len() - 1], "sleep:30000");
}

#[test]
fn press_buttons_with_no_presses_takes_any_key() {
    assert!(Siege::press_buttons('q', 0, Some(3), None).is_empty());
    assert_eq!(describe_all(&Siege::press_buttons('?', 0, None, Some(4))), vec!["sleep:4"]);
}

#[test]
fn startup_when_already_queued() {
    let mut s = Siege::init();
    let step = s.startup();
    assert_eq!(said_before_looking(&step), vec![STARTING]);
    assert_eq!(look(&step), ("siege/in_queue.png", 85, 2));
    assert_eq!(
        done(s.observe(true)),
        vec!["status:In Queue|Waiting to find a game..."]
    );
    assert_eq!(s.pending, None);
}

#[test]
fn startup_queued_by_the_alternative_image() {
    let mut s = Siege::init();
    assert_eq!(said_before_looking(&s.startup()), vec![STARTING]);
    let step = s.observe(false);
    assert!(said_before_looking(&step).is_empty());
    assert_eq!(look(&step), ("siege/in_queue_alt.png", 85, 2));
    assert_eq!(done(s.observe(true)), vec!["status:In Queue|Waiting to find a game..."]);
}

#[test]
fn startup_from_the_menu_queues() {
    let mut s = Siege::init();
    s.startup();
    s.observe(false);
    let step = s.observe(false);
    assert_eq!(look(&step), ("siege/cogs.png", 90, 10));
    let mut expected = vec!["status:Queuing for Game|Navigating to start a new match...".to_string()];
    expected.extend(navigation());
    expected.push("status:In Queue|Waiting to find a game...".to_string());
    assert_eq!(done(s.observe(true)), expected);
}

#[test]
fn startup_elsewhere_is_unusual() {
    let mut s = Siege::init();
    s.startup();
    s.observe(false);
    s.observe(false);
    assert_eq!(
        done(s.observe(false)),
        vec!["status:Unusual|You weren't in the queue or the menu! Continuing..."]
    );
}

#[test]
fn loop_in_queue_waits_five_seconds() {
    let mut s = Siege::init();
    let step = s.game_loop();
    assert!(said_before_looking(&step).is_empty());
    assert_eq!(s.routine, Routine::GameLoop);
    assert_eq!(look(&step), ("siege/in_queue.png", 85, 2));
    assert_eq!(
        done(s.observe(true)),
        vec!["status:In Queue|Waiting to find a game...", "sleep:5000"]
    );
}

#[test]
fn loop_from_the_menu_waits_thirty_seconds() {
    let mut s = Siege::init();
    s.game_loop();
    s.observe(false);
    s.observe(false);
    let mut expected = vec!["status:Queuing for Game|Navigating to start a new match...".to_string()];
    expected.extend(navigation());
    expected.push("status:In Queue|Waiting to find a game...".to_string());
    expected.push("sleep:30000".to_string());
    assert_eq!(done(s.observe(true)), expected);
}

#[test]
fn loop_dismisses_an_error_screen() {
    let mut s = Siege::init();
    s.game_loop();
    s.observe(false);
    s.observe(false);
    let step = s.observe(false);
    assert_eq!(look(&step), ("siege/in_game_error.png", 100, 1));
    assert_eq!(
        done(s.observe(true)),
        vec![
            "status:Error|You're in an error screen!",
            "debug:Pressing '\\n'",
            "tap:'\\n'",
            "sleep:1500",
            "sleep:1500",
        ]
    );
}

#[test]
fn loop_in_game_taps_a_random_movement_key() {
    let mut keys_seen = std::collections::HashSet::new();
    let mut delays_seen = std::collections::HashSet::new();
    for _ in 0..200 {
        let mut s = Siege::init();
        s.game_loop();
        s.observe(false);
        s.observe(false);
        s.observe(false);
        let cs = match s.observe(false) {
            Step::Done(cs) => cs,
            Step::Look(..) => panic!("expected the round to finish"),
        };
        assert_eq!(cs.len(), 4);
        assert_eq!(describe(&cs[0]), "status:Playing|You are in game.");
        let key = match &cs[2] {
            Command::Tap(k) => *k,
            _ => panic!("expected a tap"),
        };
        assert!(['W', 'A', 'S', 'D'].contains(&key));
        assert_eq!(describe(&cs[1]), format!("debug:Pressing {:?}", key));
        match &cs[3] {
            Command::Sleep(ms) => {
                assert!((200..900).contains(ms));
                delays_seen.insert(*ms);
            }
            _ => panic!("expected a pause"),
        }
        keys_seen.insert(key);
    }
    assert!(keys_seen.len() > 1);
    assert!(delays_seen.len() > 1);
}

#[test]
fn decide_in_game_uses_the_given_roll() {
    let mut s = Siege { routine: Routine::GameLoop, pending: Some(Probe::InError) };
    assert_eq!(
        done(s.decide(false, 'A', 345)),
        vec!["status:Playing|You are in game.", "debug:Pressing 'A'", "tap:'A'", "sleep:345"]
    );
}

#[test]
fn playing_commands_are_exact() {
    assert_eq!(
        describe_all(&Siege::playing_commands('S', 200)),
        vec!["status:Playing|You are in game.", "debug:Pressing 'S'", "tap:'S'", "sleep:200"]
    );
}
