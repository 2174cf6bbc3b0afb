use vstd::prelude::*;
use vstd::string::*;

use crate::chance::{choose_key, random_in_range};
use crate::event::{
    append_commands, commands_view, debug_event, no_commands, optional_sleep, push_command, push_optional_sleep,
    push_status, status_command, AppEventView, Command, CommandView,
};
use crate::games::{Game, ScreenCheck, ScreenCheckView, Step, StepView};
use crate::keys::is_tap_key;
use crate::text::{decimal, key_debug, spec_decimal, spec_key_debug};

verus! {

/// The debug line logged before the `index`-th of `amount` presses.
pub open spec fn spec_press_line(button: char, index: nat, amount: nat) -> Seq<char> {
    "Pressing "@ + spec_key_debug(button) + " ("@ + spec_decimal(index) + "/"@
        + spec_decimal(amount) + ")"@
}

/// The debug line logged before a single press.
pub open spec fn spec_single_press_line(button: char) -> Seq<char> {
    "Pressing "@ + spec_key_debug(button)
}

/// The first `k` of `amount` presses of `button`: for each, a debug line,
/// the tap, and the optional pause between presses.
pub open spec fn spec_press_rounds(button: char, k: nat, amount: nat, between: Option<u64>) -> Seq<
    CommandView,
>
    decreases k,
{
    if k == 0 {
        seq![]
    } else {
        spec_press_rounds(button, (k - 1) as nat, amount, between) + seq![
            CommandView::Send(AppEventView::AddDebug(spec_press_line(button, k, amount))),
            CommandView::Tap(button),
        ] + optional_sleep(between)
    }
}

/// `amount` presses of `button`, then the optional pause at the end.
pub open spec fn spec_press_buttons(
    button: char,
    amount: nat,
    between: Option<u64>,
    at_end: Option<u64>,
) -> Seq<CommandView> {
    spec_press_rounds(button, amount, amount, between) + optional_sleep(at_end)
}

/// One press of `button`: a debug line, the tap, the optional pause.
pub open spec fn spec_press_button(button: char, at_end: Option<u64>) -> Seq<CommandView> {
    seq![
        CommandView::Send(AppEventView::AddDebug(spec_single_press_line(button))),
        CommandView::Tap(button),
    ] + optional_sleep(at_end)
}

/// Every key that a command list taps can be tapped.
pub open spec fn taps_are_valid(cs: Seq<CommandView>) -> bool {
    forall|i: int| 0 <= i < cs.len() ==> (#[trigger] cs[i] matches CommandView::Tap(c) ==> is_tap_key(c))
}

/// The number of taps in a command list.
pub open spec fn tap_count(cs: Seq<CommandView>) -> nat
    decreases cs.len(),
{
    if cs.len() == 0 {
        0
    } else {
        tap_count(cs.drop_last()) + if cs.last() is Tap { 1nat } else { 0nat }
    }
}

/// Which of the robot's routines is running.
#[derive(Clone, Copy, Debug, PartialEq, Eq, Structural)]
pub enum Routine {
    Startup,
    GameLoop,
}

/// The question about the screen that the robot waits to have answered.
#[derive(Clone, Copy, Debug, PartialEq, Eq, Structural)]
pub enum Probe {
    InQueue,
    InQueueAlt,
    InMenu,
    InError,
}

/// The images of Rainbow Six Siege that the robot looks for, by path under
/// the assets directory.
pub open spec fn spec_siege_images() -> Seq<Seq<char>> {
    seq![
        "siege/cogs.png"@,
        "siege/in_game_error.png"@,
        "siege/in_queue_alt.png"@,
        "siege/in_queue.png"@,
    ]
}

/// The screen check that answers a probe.
pub open spec fn probe_check(p: Probe) -> ScreenCheckView {
    match p {
        Probe::InQueue => ScreenCheckView {
            image: "siege/in_queue.png"@,
            confidence_percent: 85,
            tolerance: 2,
        },
        Probe::InQueueAlt => ScreenCheckView {
            image: "siege/in_queue_alt.png"@,
            confidence_percent: 85,
            tolerance: 2,
        },
        Probe::InMenu => ScreenCheckView {
            image: "siege/cogs.png"@,
            confidence_percent: 90,
            tolerance: 10,
        },
        Probe::InError => ScreenCheckView {
            image: "siege/in_game_error.png"@,
            confidence_percent: 100,
            tolerance: 1,
        },
    }
}

/// The Rainbow Six Siege robot: the routine that runs and the probe it waits
/// to have answered, if any.
#[derive(Clone, Copy, Debug, PartialEq, Eq, Structural)]
pub struct Siege {
    pub routine: Routine,
    pub pending: Option<Probe>,
}

/// The keys the robot taps at random while in game.
pub open spec fn spec_play_keys() -> Seq<char> {
    seq!['W', 'A', 'S', 'D']
}

/// The shortest pause after a random in-game tap, in milliseconds.
pub const PLAY_DELAY_MIN: u64 = 200;

/// The pause after a random in-game tap stays below this, in milliseconds.
pub const PLAY_DELAY_BOUND: u64 = 900;

/// A random in-game tap the robot may make: one of W, A, S, D, with a pause
/// of at least 200 and under 900 milliseconds.
pub open spec fn valid_play(button: char, delay: u64) -> bool {
    &&& spec_play_keys().contains(button)
    &&& PLAY_DELAY_MIN <= delay < PLAY_DELAY_BOUND
}

/// The status shown while the robot waits in the queue.
pub open spec fn in_queue_status() -> CommandView {
    status_command("In Queue"@, "Waiting to find a game..."@)
}

/// The key presses that lead from the main menu into the casual queue.
pub open spec fn spec_queue_navigation() -> Seq<CommandView> {
    spec_press_buttons('W', 3, Some(500u64), Some(500u64)) + spec_press_buttons(
        'A',
        3,
        Some(500u64),
        Some(500u64),
    ) + spec_press_button('S', Some(500u64)) + spec_press_buttons('D', 3, Some(500u64), Some(500u64))
        + spec_press_buttons('A', 2, Some(500u64), Some(500u64)) + spec_press_button(
        '\n',
        Some(500u64),
    ) + spec_press_button('D', Some(500u64)) + spec_press_button('\n', Some(500u64))
        + spec_press_button('\n', Some(500u64))
}

/// Already queued: say so; in the loop, wait five seconds before looking again.
pub open spec fn in_queue_commands(r: Routine) -> Seq<CommandView> {
    match r {
        Routine::Startup => seq![in_queue_status()],
        Routine::GameLoop => seq![in_queue_status(), CommandView::Sleep(5000)],
    }
}

/// In the menu: start a match; in the loop, wait thirty seconds afterwards.
pub open spec fn in_menu_commands(r: Routine) -> Seq<CommandView> {
    seq![status_command("Queuing for Game"@, "Navigating to start a new match..."@)]
        + spec_queue_navigation() + seq![in_queue_status()] + match r {
        Routine::Startup => seq![],
        Routine::GameLoop => seq![CommandView::Sleep(30000)],
    }
}

/// At start-up, neither queued nor in the menu.
pub open spec fn unusual_commands() -> Seq<CommandView> {
    seq![status_command("Unusual"@, "You weren't in the queue or the menu! Continuing..."@)]
}

/// On an error screen: dismiss it with Enter and wait.
pub open spec fn error_commands() -> Seq<CommandView> {
    seq![status_command("Error"@, "You're in an error screen!"@)] + spec_press_button(
        '\n',
        Some(1500u64),
    ) + seq![CommandView::Sleep(1500)]
}

/// In game: one tap of `button`, then a pause of `delay`.
pub open spec fn playing_commands(button: char, delay: u64) -> Seq<CommandView> {
    seq![status_command("Playing"@, "You are in game."@)] + spec_press_button(button, Some(delay))
}

/// The robot after asking about `p`, and the step that asks.
pub open spec fn ask(s: Siege, p: Probe) -> (Siege, StepView) {
    (Siege { routine: s.routine, pending: Some(p) }, StepView::Look(seq![], probe_check(p)))
}

/// What a routine says before its first look at the screen: start-up
/// announces that the game is starting; the loop says nothing.
pub open spec fn opening_commands(r: Routine) -> Seq<CommandView> {
    match r {
        Routine::Startup => seq![status_command("Starting"@, "Starting the game..."@)],
        Routine::GameLoop => seq![],
    }
}

/// Beginning routine `r`: after the opening commands, the first question is
/// always whether the robot is queued.
pub open spec fn spec_begin(r: Routine) -> (Siege, StepView) {
    (
        Siege { routine: r, pending: Some(Probe::InQueue) },
        StepView::Look(opening_commands(r), probe_check(Probe::InQueue)),
    )
}

/// The robot after finishing its routine with `cs`, and the step that hands them over.
pub open spec fn finish(s: Siege, cs: Seq<CommandView>) -> (Siege, StepView) {
    (Siege { routine: s.routine, pending: None }, StepView::Done(cs))
}

/// What the robot does with the answer `seen` to its pending probe, when a
/// random in-game tap would be `button` with pause `delay`. Queued beats in
/// the menu beats an error screen; only the game loop looks for an error
/// screen, and only it taps at random.
pub open spec fn spec_decide(s: Siege, seen: bool, button: char, delay: u64) -> (Siege, StepView) {
    match s.pending {
        Some(Probe::InQueue) => if seen {
            finish(s, in_queue_commands(s.routine))
        } else {
            ask(s, Probe::InQueueAlt)
        },
        Some(Probe::InQueueAlt) => if seen {
            finish(s, in_queue_commands(s.routine))
        } else {
            ask(s, Probe::InMenu)
        },
        Some(Probe::InMenu) => if seen {
            finish(s, in_menu_commands(s.routine))
        } else {
            match s.routine {
                Routine::Startup => finish(s, unusual_commands()),
                Routine::GameLoop => ask(s, Probe::InError),
            }
        },
        Some(Probe::InError) => if seen {
            finish(s, error_commands())
        } else {
            finish(s, playing_commands(button, delay))
        },
        None => (s, StepView::Done(seq![])),
    }
}

/// How many more screen checks the robot may still ask for in its routine.
pub open spec fn checks_left(s: Siege) -> nat {
    match s.pending {
        None => 0,
        Some(Probe::InError) => 1,
        Some(Probe::InMenu) => match s.routine {
            Routine::Startup => 1,
            Routine::GameLoop => 2,
        },
        Some(Probe::InQueueAlt) => match s.routine {
            Routine::Startup => 2,
            Routine::GameLoop => 3,
        },
        Some(Probe::InQueue) => match s.routine {
            Routine::Startup => 3,
            Routine::GameLoop => 4,
        },
    }
}

impl Siege {
    /// A robot that runs no routine yet.
    pub fn init() -> (s: Siege)
        ensures
            s.pending is None,
            s.routine == Routine::Startup,
    {
        Siege { routine: Routine::Startup, pending: None }
    }

    /// The image paths the robot needs loaded, in the order it lists them.
    pub fn images() -> (paths: Vec<&'static str>)
        ensures
            paths@.map_values(|p: &'static str| p@) == spec_siege_images(),
    {
        let paths: Vec<&'static str> = vec![
            "siege/cogs.png",
            "siege/in_game_error.png",
            "siege/in_queue_alt.png",
            "siege/in_queue.png",
        ];
        assert(paths@.map_values(|p: &'static str| p@) =~= spec_siege_images());
        paths
    }

    /// The screen check that answers `p`.
    pub fn check_for(p: Probe) -> (c: ScreenCheck)
        ensures
            c@ == probe_check(p),
    {
        match p {
            Probe::InQueue => ScreenCheck {
                image: "siege/in_queue.png",
                confidence_percent: 85,
                tolerance: 2,
            },
            Probe::InQueueAlt => ScreenCheck {
                image: "siege/in_queue_alt.png",
                confidence_percent: 85,
                tolerance: 2,
            },
            Probe::InMenu => ScreenCheck {
                image: "siege/cogs.png",
                confidence_percent: 90,
                tolerance: 10,
            },
            Probe::InError => ScreenCheck {
                image: "siege/in_game_error.png",
                confidence_percent: 100,
                tolerance: 1,
            },
        }
    }

    /// The commands that press `button` `amount` times, logging each press
    /// as `Pressing 'W' (1/3)`, pausing `delay_between` after each press and
    /// `delay_on_the_end` after the last. With no presses the key is never
    /// tapped, so any key will do.
    pub fn press_buttons(
        button: char,
        amount: u32,
        delay_between: Option<u64>,
        delay_on_the_end: Option<u64>,
    ) -> (cs: Vec<Command>)
        requires
            amount > 0 ==> is_tap_key(button),
        ensures
            commands_view(cs@) == spec_press_buttons(
                button,
                amount as nat,
                delay_between,
                delay_on_the_end,
            ),
    {
        let mut cs: Vec<Command> = Vec::new();
        let mut i: u32 = 0;
        assert(commands_view(cs@) =~= seq![]);
        while i < amount
            invariant
                i <= amount,
                amount > 0 ==> is_tap_key(button),
                commands_view(cs@) == spec_press_rounds(button, i as nat, amount as nat, delay_between),
            decreases amount - i,
        {
            let mut line = String::from_str("Pressing ");
            line.append(key_debug(button));
            line.append(" (");
            let index = decimal((i + 1) as u64);
            line.append(index.as_str());
            line.append("/");
            let total = decimal(amount as u64);
            line.append(total.as_str());
            line.append(")");
            let ghost before = commands_view(cs@);
            push_command(&mut cs, Command::Send(debug_event(line)));
            push_command(&mut cs, Command::Tap(button));
            push_optional_sleep(&mut cs, delay_between);
            i = i + 1;
            assert(commands_view(cs@) =~= spec_press_rounds(
                button,
                i as nat,
                amount as nat,
                delay_between,
            ));
        }
        push_optional_sleep(&mut cs, delay_on_the_end);
        cs
    }

    /// The commands that press `button` once, logging `Pressing 'W'` and
    /// pausing `delay_on_the_end` afterwards.
    pub fn press_button(button: char, delay_on_the_end: Option<u64>) -> (cs: Vec<Command>)
        requires
            is_tap_key(button),
        ensures
            commands_view(cs@) == spec_press_button(button, delay_on_the_end),
    {
        let mut cs: Vec<Command> = Vec::new();
        let mut line = String::from_str("Pressing ");
        line.append(key_debug(button));
        push_command(&mut cs, Command::Send(debug_event(line)));
        push_command(&mut cs, Command::Tap(button));
        push_optional_sleep(&mut cs, delay_on_the_end);
        assert(commands_view(cs@) =~= spec_press_button(button, delay_on_the_end));
        cs
    }
    /// The commands for a robot that found itself in the queue.
    pub fn in_queue_commands(r: Routine) -> (cs: Vec<Command>)
        ensures
            commands_view(cs@) == in_queue_commands(r),
    {
        let mut cs: Vec<Command> = Vec::new();
        push_status(&mut cs, "In Queue", "Waiting to find a game...");
        if r == Routine::GameLoop {
            push_command(&mut cs, Command::Sleep(5000));
        }
        assert(commands_view(cs@) =~= in_queue_commands(r));
        cs
    }

    /// The commands that take the robot from the main menu into the queue.
    pub fn queue_navigation() -> (cs: Vec<Command>)
        ensures
            commands_view(cs@) == spec_queue_navigation(),
    {
        let mut cs = Siege::press_buttons('W', 3, Some(500), Some(500));
        append_commands(&mut cs, Siege::press_buttons('A', 3, Some(500), Some(500)));
        append_commands(&mut cs, Siege::press_button('S', Some(500)));
        append_commands(&mut cs, Siege::press_buttons('D', 3, Some(500), Some(500)));
        append_commands(&mut cs, Siege::press_buttons('A', 2, Some(500), Some(500)));
        append_commands(&mut cs, Siege::press_button('\n', Some(500)));
        append_commands(&mut cs, Siege::press_button('D', Some(500)));
        append_commands(&mut cs, Siege::press_button('\n', Some(500)));
        append_commands(&mut cs, Siege::press_button('\n', Some(500)));
        cs
    }

    /// The commands for a robot that found itself in the main menu.
    pub fn in_menu_commands(r: Routine) -> (cs: Vec<Command>)
        ensures
            commands_view(cs@) == in_menu_commands(r),
    {
        let mut cs: Vec<Command> = Vec::new();
        push_status(&mut cs, "Queuing for Game", "Navigating to start a new match...");
        append_commands(&mut cs, Siege::queue_navigation());
        push_status(&mut cs, "In Queue", "Waiting to find a game...");
        if r == Routine::GameLoop {
            push_command(&mut cs, Command::Sleep(30000));
        }
        assert(commands_view(cs@) =~= in_menu_commands(r));
        cs
    }

    /// The commands for a robot that started neither queued nor in the menu.
    pub fn unusual_commands() -> (cs: Vec<Command>)
        ensures
            commands_view(cs@) == unusual_commands(),
    {
        let mut cs: Vec<Command> = Vec::new();
        push_status(&mut cs, "Unusual", "You weren't in the queue or the menu! Continuing...");
        assert(commands_view(cs@) =~= unusual_commands());
        cs
    }

    /// The commands for a robot that found an error screen.
    pub fn error_commands() -> (cs: Vec<Command>)
        ensures
            commands_view(cs@) == error_commands(),
    {
        let mut cs: Vec<Command> = Vec::new();
        push_status(&mut cs, "Error", "You're in an error screen!");
        append_commands(&mut cs, Siege::press_button('\n', Some(1500)));
        push_command(&mut cs, Command::Sleep(1500));
        assert(commands_view(cs@) =~= error_commands());
        cs
    }

    /// The commands for a robot in game: tap `button`, then pause `delay`.
    pub fn playing_commands(button: char, delay: u64) -> (cs: Vec<Command>)
        requires
            is_tap_key(button),
        ensures
            commands_view(cs@) == playing_commands(button, delay),
    {
        let mut cs: Vec<Command> = Vec::new();
        push_status(&mut cs, "Playing", "You are in game.");
        append_commands(&mut cs, Siege::press_button(button, Some(delay)));
        assert(commands_view(cs@) =~= playing_commands(button, delay));
        cs
    }

    /// Begins routine `r`: the first question is always whether the robot
    /// is queued.
    pub fn begin(&mut self, r: Routine) -> (step: Step)
        ensures
            (*final(self), step@) == spec_begin(r),
    {
        self.routine = r;
        self.pending = Some(Probe::InQueue);
        let mut opening: Vec<Command> = Vec::new();
        if r == Routine::Startup {
            push_status(&mut opening, "Starting", "Starting the game...");
        }
        assert(commands_view(opening@) =~= opening_commands(r));
        Step::Look(opening, Siege::check_for(Probe::InQueue))
    }

    /// Takes the answer `seen` to the pending probe; `button` and `delay`
    /// are the random in-game tap, used only when the robot finds itself in
    /// game.
    pub fn decide(&mut self, seen: bool, button: char, delay: u64) -> (step: Step)
        requires
            old(self).pending is Some,
            is_tap_key(button),
        ensures
            (*final(self), step@) == spec_decide(*old(self), seen, button, delay),
    {
        match self.pending {
            Some(Probe::InQueue) => if seen {
                self.pending = None;
                Step::Done(Siege::in_queue_commands(self.routine))
            } else {
                self.pending = Some(Probe::InQueueAlt);
                Step::Look(no_commands(), Siege::check_for(Probe::InQueueAlt))
            },
            Some(Probe::InQueueAlt) => if seen {
                self.pending = None;
                Step::Done(Siege::in_queue_commands(self.routine))
            } else {
                self.pending = Some(Probe::InMenu);
                Step::Look(no_commands(), Siege::check_for(Probe::InMenu))
            },
            Some(Probe::InMenu) => if seen {
                self.pending = None;
                Step::Done(Siege::in_menu_commands(self.routine))
            } else {
                match self.routine {
                    Routine::Startup => {
                        self.pending = None;
                        Step::Done(Siege::unusual_commands())
                    },
                    Routine::GameLoop => {
                        self.pending = Some(Probe::InError);
                        Step::Look(no_commands(), Siege::check_for(Probe::InError))
                    },
                }
            },
            Some(Probe::InError) => {
                self.pending = None;
                if seen {
                    Step::Done(Siege::error_commands())
                } else {
                    Step::Done(Siege::playing_commands(button, delay))
                }
            },
            None => Step::Done(Vec::new()),
        }
    }
}

impl Game for Siege {
    open spec fn pending_check(&self) -> Option<ScreenCheckView> {
        match self.pending {
            Some(p) => Some(probe_check(p)),
            None => None,
        }
    }

    /// Start-up: announce that the game is starting, then find out whether
    /// the robot is queued, in the menu, or elsewhere, and queue from the menu.
    fn startup(&mut self) -> (step: Step)
        ensures
            (*final(self), step@) == spec_begin(Routine::Startup),
    {
        self.begin(Routine::Startup)
    }

    /// One round of the loop: wait in the queue, queue from the menu,
    /// dismiss an error screen, or tap a random key in game.
    fn game_loop(&mut self) -> (step: Step)
        ensures
            (*final(self), step@) == spec_begin(Routine::GameLoop),
    {
        self.begin(Routine::GameLoop)
    }

    /// Takes the answer to the pending probe. Only when the robot finds
    /// itself in game does it draw a random key and pause.
    fn observe(&mut self, seen: bool) -> (step: Step)
        ensures
            exists|button: char, delay: u64|
                valid_play(button, delay) && (*final(self), step@) == spec_decide(
                    *old(self),
                    seen,
                    button,
                    delay,
                ),
    {
        if matches!(self.pending, Some(Probe::InError)) && !seen {
            let keys: Vec<char> = vec!['W', 'A', 'S', 'D'];
            assert(keys@ =~= spec_play_keys());
            let button = choose_key(keys.as_slice()).unwrap();
            let delay = random_in_range(PLAY_DELAY_MIN, PLAY_DELAY_BOUND);
            let ghost before = *self;
            let step = self.decide(seen, button, delay);
            assert(valid_play(button, delay));
            assert((*self, step@) == spec_decide(before, seen, button, delay));
            step
        } else {
            let ghost before = *self;
            let step = self.decide(seen, 'W', PLAY_DELAY_MIN);
            assert(valid_play('W', PLAY_DELAY_MIN)) by {
                assert(spec_play_keys()[0] == 'W');
            }
            assert((*self, step@) == spec_decide(before, seen, 'W', PLAY_DELAY_MIN));
            step
        }
    }
}

/// Counting taps distributes over joining command lists.
pub proof fn lemma_tap_count_add(a: Seq<CommandView>, b: Seq<CommandView>)
    ensures
        tap_count(a + b) == tap_count(a) + tap_count(b),
    decreases b.len(),
{
    if b.len() == 0 {
        assert(a + b =~= a);
    } else {
        lemma_tap_count_add(a, b.drop_last());
        assert((a + b).drop_last() =~= a + b.drop_last());
    }
}

/// Joining two lists whose taps are valid gives a list whose taps are valid.
pub proof fn lemma_taps_valid_add(a: Seq<CommandView>, b: Seq<CommandView>)
    requires
        taps_are_valid(a),
        taps_are_valid(b),
    ensures
        taps_are_valid(a + b),
{
    assert forall|i: int| 0 <= i < (a + b).len() implies (#[trigger] (a + b)[i] matches CommandView::Tap(
        c,
    ) ==> is_tap_key(c)) by {
        if i < a.len() {
            assert((a + b)[i] == a[i]);
        } else {
            assert((a + b)[i] == b[i - a.len()]);
        }
    }
}

proof fn lemma_optional_sleep(d: Option<u64>)
    ensures
        taps_are_valid(optional_sleep(d)),
        tap_count(optional_sleep(d)) == 0,
{
    reveal_with_fuel(tap_count, 2);
    if d is Some {
        assert(optional_sleep(d).drop_last() =~= seq![]);
    }
}

proof fn lemma_press_rounds(button: char, k: nat, amount: nat, between: Option<u64>)
    requires
        k > 0 ==> is_tap_key(button),
    ensures
        taps_are_valid(spec_press_rounds(button, k, amount, between)),
        tap_count(spec_press_rounds(button, k, amount, between)) == k,
    decreases k,
{
    if k > 0 {
        let prev = spec_press_rounds(button, (k - 1) as nat, amount, between);
        let round: Seq<CommandView> = seq![
            CommandView::Send(AppEventView::AddDebug(spec_press_line(button, k, amount))),
            CommandView::Tap(button),
        ];
        lemma_press_rounds(button, (k - 1) as nat, amount, between);
        lemma_optional_sleep(between);
        assert(round.drop_last().drop_last() =~= seq![]);
        assert(round.drop_last() =~= seq![round[0]]);
        assert(tap_count(round) == 1) by {
            reveal_with_fuel(tap_count, 3);
        }
        lemma_tap_count_add(prev, round);
        lemma_tap_count_add(prev + round, optional_sleep(between));
        lemma_taps_valid_add(prev, round);
        lemma_taps_valid_add(prev + round, optional_sleep(between));
    }
}

/// Pressing a key `amount` times taps exactly that key, exactly `amount`
/// times, and nothing that cannot be tapped; zero presses tap nothing,
/// whatever the key.
pub proof fn lemma_press_buttons_taps(
    button: char,
    amount: nat,
    between: Option<u64>,
    at_end: Option<u64>,
)
    requires
        amount > 0 ==> is_tap_key(button),
    ensures
        taps_are_valid(spec_press_buttons(button, amount, between, at_end)),
        tap_count(spec_press_buttons(button, amount, between, at_end)) == amount,
{
    lemma_press_rounds(button, amount, amount, between);
    lemma_optional_sleep(at_end);
    lemma_tap_count_add(spec_press_rounds(button, amount, amount, between), optional_sleep(at_end));
    lemma_taps_valid_add(spec_press_rounds(button, amount, amount, between), optional_sleep(at_end));
}

/// Pressing a key once taps it exactly once.
pub proof fn lemma_press_button_taps(button: char, at_end: Option<u64>)
    requires
        is_tap_key(button),
    ensures
        taps_are_valid(spec_press_button(button, at_end)),
        tap_count(spec_press_button(button, at_end)) == 1,
{
    let head: Seq<CommandView> = seq![
        CommandView::Send(AppEventView::AddDebug(spec_single_press_line(button))),
        CommandView::Tap(button),
    ];
    lemma_optional_sleep(at_end);
    assert(head.drop_last().drop_last() =~= seq![]);
    assert(head.drop_last() =~= seq![head[0]]);
    assert(tap_count(head) == 1) by {
        reveal_with_fuel(tap_count, 3);
    }
    lemma_tap_count_add(head, optional_sleep(at_end));
    lemma_taps_valid_add(head, optional_sleep(at_end));
}

/// A random in-game tap is of a key that can be tapped.
pub proof fn lemma_play_key_tappable(button: char, delay: u64)
    requires
        valid_play(button, delay),
    ensures
        is_tap_key(button),
{
    let i = choose|i: int| 0 <= i < spec_play_keys().len() && spec_play_keys()[i] == button;
    assert(spec_play_keys()[i] == button);
}

proof fn lemma_navigation_taps()
    ensures
        taps_are_valid(spec_queue_navigation()),
{
    let p1 = spec_press_buttons('W', 3, Some(500u64), Some(500u64));
    let p2 = spec_press_buttons('A', 3, Some(500u64), Some(500u64));
    let p3 = spec_press_button('S', Some(500u64));
    let p4 = spec_press_buttons('D', 3, Some(500u64), Some(500u64));
    let p5 = spec_press_buttons('A', 2, Some(500u64), Some(500u64));
    let p6 = spec_press_button('\n', Some(500u64));
    let p7 = spec_press_button('D', Some(500u64));
    let p8 = spec_press_button('\n', Some(500u64));
    lemma_press_buttons_taps('W', 3, Some(500u64), Some(500u64));
    lemma_press_buttons_taps('A', 3, Some(500u64), Some(500u64));
    lemma_press_button_taps('S', Some(500u64));
    lemma_press_buttons_taps('D', 3, Some(500u64), Some(500u64));
    lemma_press_buttons_taps('A', 2, Some(500u64), Some(500u64));
    lemma_press_button_taps('\n', Some(500u64));
    lemma_press_button_taps('D', Some(500u64));
    lemma_taps_valid_add(p1, p2);
    lemma_taps_valid_add(p1 + p2, p3);
    lemma_taps_valid_add(p1 + p2 + p3, p4);
    lemma_taps_valid_add(p1 + p2 + p3 + p4, p5);
    lemma_taps_valid_add(p1 + p2 + p3 + p4 + p5, p6);
    lemma_taps_valid_add(p1 + p2 + p3 + p4 + p5 + p6, p7);
    lemma_taps_valid_add(p1 + p2 + p3 + p4 + p5 + p6 + p7, p8);
    lemma_taps_valid_add(p1 + p2 + p3 + p4 + p5 + p6 + p7 + p8, p8);
}

/// Whatever the screen shows, a routine of the Siege robot asks at most
/// four questions, three at start-up, and keeps to the routine it began:
/// each answer either finishes it or leaves strictly fewer questions open.
pub proof fn lemma_routine_bounded(s: Siege, seen: bool, button: char, delay: u64)
    requires
        s.pending is Some,
    ensures
        checks_left(s) <= 4,
        s.routine == Routine::Startup ==> checks_left(s) <= 3,
        spec_decide(s, seen, button, delay).0.routine == s.routine,
        spec_decide(s, seen, button, delay).0.pending is Some ==> checks_left(
            spec_decide(s, seen, button, delay).0,
        ) < checks_left(s),
        checks_left(spec_begin(Routine::Startup).0) == 3,
        checks_left(spec_begin(Routine::GameLoop).0) == 4,
{
}

/// Every command a routine of the Siege robot hands over, before a look or
/// at its end, taps only keys the keyboard driver knows, so carrying the
/// commands out never fails on a key.
pub proof fn lemma_routine_taps_valid(s: Siege, seen: bool, button: char, delay: u64)
    requires
        valid_play(button, delay),
    ensures
        spec_decide(s, seen, button, delay).1 matches StepView::Done(cs) ==> taps_are_valid(cs),
        spec_decide(s, seen, button, delay).1 matches StepView::Look(cs, _) ==> taps_are_valid(cs),
        spec_begin(s.routine).1 matches StepView::Look(cs, _) ==> taps_are_valid(cs),
{
    assert(taps_are_valid(opening_commands(Routine::Startup)));
    assert(taps_are_valid(opening_commands(Routine::GameLoop)));
    lemma_play_key_tappable(button, delay);
    lemma_navigation_taps();
    let st: Seq<CommandView> = seq![status_command("Queuing for Game"@, "Navigating to start a new match..."@)];
    let q: Seq<CommandView> = seq![in_queue_status()];
    let tail_startup: Seq<CommandView> = seq![];
    let tail_loop: Seq<CommandView> = seq![CommandView::Sleep(30000)];
    assert(taps_are_valid(st));
    assert(taps_are_valid(q));
    assert(taps_are_valid(tail_startup));
    assert(taps_are_valid(tail_loop));
    lemma_taps_valid_add(st, spec_queue_navigation());
    lemma_taps_valid_add(st + spec_queue_navigation(), q);
    lemma_taps_valid_add(st + spec_queue_navigation() + q, tail_startup);
    lemma_taps_valid_add(st + spec_queue_navigation() + q, tail_loop);
    assert(taps_are_valid(in_menu_commands(Routine::Startup)));
    assert(taps_are_valid(in_menu_commands(Routine::GameLoop)));
    let e: Seq<CommandView> = seq![status_command("Error"@, "You're in an error screen!"@)];
    let w: Seq<CommandView> = seq![CommandView::Sleep(1500)];
    lemma_press_button_taps('\n', Some(1500u64));
    assert(taps_are_valid(e));
    assert(taps_are_valid(w));
    lemma_taps_valid_add(e, spec_press_button('\n', Some(1500u64)));
    lemma_taps_valid_add(e + spec_press_button('\n', Some(1500u64)), w);
    let pl: Seq<CommandView> = seq![status_command("Playing"@, "You are in game."@)];
    lemma_press_button_taps(button, Some(delay));
    assert(taps_are_valid(pl));
    lemma_taps_valid_add(pl, spec_press_button(button, Some(delay)));
    assert(taps_are_valid(in_queue_commands(Routine::Startup)));
    assert(taps_are_valid(in_queue_commands(Routine::GameLoop)));
    assert(taps_are_valid(unusual_commands()));
    assert(taps_are_valid(seq![]));
}

/// Every screen check the robot asks for looks for one of the images it
/// has the runner load, so the runner always has the image at hand.
pub proof fn lemma_checks_use_listed_images(p: Probe)
    ensures
        spec_siege_images().contains(probe_check(p).image),
{
    match p {
        Probe::InQueue => assert(spec_siege_images()[3] == probe_check(p).image),
        Probe::InQueueAlt => assert(spec_siege_images()[2] == probe_check(p).image),
        Probe::InMenu => assert(spec_siege_images()[0] == probe_check(p).image),
        Probe::InError => assert(spec_siege_images()[1] == probe_check(p).image),
    }
}

/// The keys a command list taps, in order.
pub open spec fn taps_of(cs: Seq<CommandView>) -> Seq<char>
    decreases cs.len(),
{
    if cs.len() == 0 {
        seq![]
    } else {
        taps_of(cs.drop_last()) + match cs.last() {
            CommandView::Tap(c) => seq![c],
            _ => seq![],
        }
    }
}

proof fn lemma_taps_of_add(a: Seq<CommandView>, b: Seq<CommandView>)
    ensures
        taps_of(a + b) == taps_of(a) + taps_of(b),
    decreases b.len(),
{
    if b.len() == 0 {
        assert(a + b =~= a);
        assert(taps_of(a) + taps_of(b) =~= taps_of(a));
    } else {
        lemma_taps_of_add(a, b.drop_last());
        assert((a + b).drop_last() =~= a + b.drop_last());
        assert((a + b).last() == b.last());
        let t = match b.last() {
            CommandView::Tap(c) => seq![c],
            _ => Seq::<char>::empty(),
        };
        assert(taps_of(a) + taps_of(b.drop_last()) + t =~= taps_of(a) + (taps_of(b.drop_last())
            + t));
    }
}

proof fn lemma_taps_of_small(c: char, d: Option<u64>, line: Seq<char>)
    ensures
        taps_of(seq![CommandView::Send(AppEventView::AddDebug(line)), CommandView::Tap(c)]) == seq![c],
        taps_of(optional_sleep(d)) == Seq::<char>::empty(),
{
    let two = seq![CommandView::Send(AppEventView::AddDebug(line)), CommandView::Tap(c)];
    assert(two.drop_last().drop_last() =~= Seq::<CommandView>::empty());
    assert(taps_of(two.drop_last()) =~= Seq::<char>::empty()) by {
        reveal_with_fuel(taps_of, 2);
    }
    assert(taps_of(two) =~= seq![c]);
    reveal_with_fuel(taps_of, 2);
    if d is Some {
        assert(optional_sleep(d).drop_last() =~= Seq::<CommandView>::empty());
        assert(taps_of(optional_sleep(d)) =~= Seq::<char>::empty());
    }
}

proof fn lemma_press_rounds_taps(button: char, k: nat, amount: nat, between: Option<u64>)
    ensures
        taps_of(spec_press_rounds(button, k, amount, between)) == Seq::new(k, |i: int| button),
    decreases k,
{
    if k > 0 {
        let prev = spec_press_rounds(button, (k - 1) as nat, amount, between);
        let round = seq![
            CommandView::Send(AppEventView::AddDebug(spec_press_line(button, k, amount))),
            CommandView::Tap(button),
        ];
        lemma_press_rounds_taps(button, (k - 1) as nat, amount, between);
        lemma_taps_of_small(button, between, spec_press_line(button, k, amount));
        lemma_taps_of_add(prev, round);
        lemma_taps_of_add(prev + round, optional_sleep(between));
        assert(taps_of(spec_press_rounds(button, k, amount, between)) =~= Seq::new(
            k,
            |i: int| button,
        ));
    } else {
        assert(taps_of(spec_press_rounds(button, k, amount, between)) =~= Seq::new(
            k,
            |i: int| button,
        ));
    }
}

/// Pressing a key `amount` times taps that key, and only it, `amount`
/// times in a row.
pub proof fn lemma_press_buttons_tap_sequence(
    button: char,
    amount: nat,
    between: Option<u64>,
    at_end: Option<u64>,
)
    ensures
        taps_of(spec_press_buttons(button, amount, between, at_end)) == Seq::new(
            amount,
            |i: int| button,
        ),
        taps_of(spec_press_button(button, at_end)) == seq![button],
{
    lemma_press_rounds_taps(button, amount, amount, between);
    lemma_taps_of_small(button, at_end, seq![]);
    lemma_taps_of_add(spec_press_rounds(button, amount, amount, between), optional_sleep(at_end));
    assert(taps_of(spec_press_rounds(button, amount, amount, between)) + Seq::<char>::empty()
        =~= taps_of(spec_press_rounds(button, amount, amount, between)));
    let head = seq![
        CommandView::Send(AppEventView::AddDebug(spec_single_press_line(button))),
        CommandView::Tap(button),
    ];
    lemma_taps_of_small(button, at_end, spec_single_press_line(button));
    lemma_taps_of_add(head, optional_sleep(at_end));
    assert(seq![button] + Seq::<char>::empty() =~= seq![button]);
}

/// The status the robot shows while it waits in the queue.
pub open spec fn queued_status() -> CommandView {
    CommandView::Send(AppEventView::UpdateStatus("In Queue"@, "Waiting to find a game..."@))
}

/// Seen in the queue by either queue image, a routine ends at once: the
/// robot says it is queued and, in the game loop, waits five seconds. It
/// never goes on to look for the menu or an error screen, nor taps a key.
pub proof fn lemma_queued_ends_routine(s: Siege, button: char, delay: u64)
    requires
        s.pending == Some(Probe::InQueue) || s.pending == Some(Probe::InQueueAlt),
    ensures
        spec_decide(s, true, button, delay).0 == (Siege { routine: s.routine, pending: None }),
        s.routine == Routine::Startup ==> spec_decide(s, true, button, delay).1 == StepView::Done(
            seq![queued_status()],
        ),
        s.routine == Routine::GameLoop ==> spec_decide(s, true, button, delay).1 == StepView::Done(
            seq![queued_status(), CommandView::Sleep(5000)],
        ),
{
}

/// Not seen in the queue by the first image, the robot tries the second
/// one (85 % confidence, tolerance 2); not seen by either, it looks for the
/// menu's cogs (90 %, tolerance 10). Neither question says anything first.
pub proof fn lemma_queue_checks_in_order(s: Siege, button: char, delay: u64)
    ensures
        s.pending == Some(Probe::InQueue) ==> spec_decide(s, false, button, delay) == (
            Siege { routine: s.routine, pending: Some(Probe::InQueueAlt) },
            StepView::Look(
                Seq::<CommandView>::empty(),
                ScreenCheckView {
                    image: "siege/in_queue_alt.png"@,
                    confidence_percent: 85,
                    tolerance: 2,
                },
            ),
        ),
        s.pending == Some(Probe::InQueueAlt) ==> spec_decide(s, false, button, delay) == (
            Siege { routine: s.routine, pending: Some(Probe::InMenu) },
            StepView::Look(
                Seq::<CommandView>::empty(),
                ScreenCheckView { image: "siege/cogs.png"@, confidence_percent: 90, tolerance: 10 },
            ),
        ),
{
}

/// Start-up announces "Starting" / "Starting the game..." and then asks
/// whether the robot is queued (85 %, tolerance 2); a loop round asks the
/// same without a word.
pub proof fn lemma_routines_open(r: Routine)
    ensures
        spec_begin(r).0 == (Siege { routine: r, pending: Some(Probe::InQueue) }),
        r == Routine::Startup ==> spec_begin(r).1 == StepView::Look(
            seq![CommandView::Send(AppEventView::UpdateStatus("Starting"@, "Starting the game..."@))],
            ScreenCheckView { image: "siege/in_queue.png"@, confidence_percent: 85, tolerance: 2 },
        ),
        r == Routine::GameLoop ==> spec_begin(r).1 == StepView::Look(
            Seq::<CommandView>::empty(),
            ScreenCheckView { image: "siege/in_queue.png"@, confidence_percent: 85, tolerance: 2 },
        ),
{
}

/// In the menu, the robot announces "Queuing for Game", taps
/// W W W A A A S D D D A A Enter D Enter Enter, and says it is queued; in
/// the loop it then waits thirty seconds.
pub proof fn lemma_menu_queues(s: Siege, button: char, delay: u64)
    requires
        s.pending == Some(Probe::InMenu),
    ensures
        spec_decide(s, true, button, delay).0 == (Siege { routine: s.routine, pending: None }),
        spec_decide(s, true, button, delay).1 matches StepView::Done(cs) && {
            &&& cs[0] == CommandView::Send(
                AppEventView::UpdateStatus("Queuing for Game"@, "Navigating to start a new match..."@),
            )
            &&& taps_of(cs) == seq!['W', 'W', 'W', 'A', 'A', 'A', 'S', 'D', 'D', 'D', 'A', 'A', '\n', 'D', '\n', '\n']
            &&& s.routine == Routine::Startup ==> cs.last() == queued_status()
            &&& s.routine == Routine::GameLoop ==> cs.last() == CommandView::Sleep(30000)
                && cs[cs.len() - 2] == queued_status()
        },
{
    let st: Seq<CommandView> = seq![status_command("Queuing for Game"@, "Navigating to start a new match..."@)];
    let q: Seq<CommandView> = seq![in_queue_status()];
    let tail: Seq<CommandView> = match s.routine {
        Routine::Startup => seq![],
        Routine::GameLoop => seq![CommandView::Sleep(30000)],
    };
    let nav = spec_queue_navigation();
    let p1 = spec_press_buttons('W', 3, Some(500u64), Some(500u64));
    let p2 = spec_press_buttons('A', 3, Some(500u64), Some(500u64));
    let p3 = spec_press_button('S', Some(500u64));
    let p4 = spec_press_buttons('D', 3, Some(500u64), Some(500u64));
    let p5 = spec_press_buttons('A', 2, Some(500u64), Some(500u64));
    let p6 = spec_press_button('\n', Some(500u64));
    let p7 = spec_press_button('D', Some(500u64));
    lemma_press_buttons_tap_sequence('W', 3, Some(500u64), Some(500u64));
    lemma_press_buttons_tap_sequence('A', 3, Some(500u64), Some(500u64));
    lemma_press_buttons_tap_sequence('S', 0, None, Some(500u64));
    lemma_press_buttons_tap_sequence('D', 3, Some(500u64), Some(500u64));
    lemma_press_buttons_tap_sequence('A', 2, Some(500u64), Some(500u64));
    lemma_press_buttons_tap_sequence('\n', 0, None, Some(500u64));
    lemma_press_buttons_tap_sequence('D', 0, None, Some(500u64));
    lemma_taps_of_add(p1, p2);
    lemma_taps_of_add(p1 + p2, p3);
    lemma_taps_of_add(p1 + p2 + p3, p4);
    lemma_taps_of_add(p1 + p2 + p3 + p4, p5);
    lemma_taps_of_add(p1 + p2 + p3 + p4 + p5, p6);
    lemma_taps_of_add(p1 + p2 + p3 + p4 + p5 + p6, p7);
    lemma_taps_of_add(p1 + p2 + p3 + p4 + p5 + p6 + p7, p6);
    lemma_taps_of_add(p1 + p2 + p3 + p4 + p5 + p6 + p7 + p6, p6);
    assert(taps_of(nav) =~= seq!['W', 'W', 'W', 'A', 'A', 'A', 'S', 'D', 'D', 'D', 'A', 'A', '\n', 'D', '\n', '\n']);
    assert(taps_of(st) =~= Seq::<char>::empty()) by {
        reveal_with_fuel(taps_of, 2);
        assert(st.drop_last() =~= Seq::<CommandView>::empty());
    }
    assert(taps_of(q) =~= Seq::<char>::empty()) by {
        reveal_with_fuel(taps_of, 2);
        assert(q.drop_last() =~= Seq::<CommandView>::empty());
    }
    assert(taps_of(tail) =~= Seq::<char>::empty()) by {
        reveal_with_fuel(taps_of, 2);
        if tail.len() > 0 {
            assert(tail.drop_last() =~= Seq::<CommandView>::empty());
        }
    }
    lemma_taps_of_add(st, nav);
    lemma_taps_of_add(st + nav, q);
    lemma_taps_of_add(st + nav + q, tail);
    let cs = in_menu_commands(s.routine);
    assert(cs == st + nav + q + tail);
    assert(taps_of(cs) =~= seq!['W', 'W', 'W', 'A', 'A', 'A', 'S', 'D', 'D', 'D', 'A', 'A', '\n', 'D', '\n', '\n']);
}

/// Neither queued nor in the menu: start-up says so and ends; the loop goes
/// on to look for the error screen (100 %, tolerance 1).
pub proof fn lemma_not_in_menu(s: Siege, button: char, delay: u64)
    requires
        s.pending == Some(Probe::InMenu),
    ensures
        s.routine == Routine::Startup ==> spec_decide(s, false, button, delay) == (
            Siege { routine: s.routine, pending: None },
            StepView::Done(
                seq![
                    CommandView::Send(
                        AppEventView::UpdateStatus(
                            "Unusual"@,
                            "You weren't in the queue or the menu! Continuing..."@,
                        ),
                    ),
                ],
            ),
        ),
        s.routine == Routine::GameLoop ==> spec_decide(s, false, button, delay) == (
            Siege { routine: s.routine, pending: Some(Probe::InError) },
            StepView::Look(
                Seq::<CommandView>::empty(),
                ScreenCheckView {
                    image: "siege/in_game_error.png"@,
                    confidence_percent: 100,
                    tolerance: 1,
                },
            ),
        ),
{
}

/// On an error screen the robot says so, presses Enter once (logged as
/// "Pressing '\\n'"), and waits 1.5 s twice. In game it says "Playing",
/// presses the drawn key once and waits the drawn pause.
pub proof fn lemma_error_and_play(s: Siege, button: char, delay: u64)
    requires
        s.pending == Some(Probe::InError),
        valid_play(button, delay),
    ensures
        spec_decide(s, true, button, delay) == (
            Siege { routine: s.routine, pending: None },
            StepView::Done(
                seq![
                    CommandView::Send(
                        AppEventView::UpdateStatus("Error"@, "You're in an error screen!"@),
                    ),
                    CommandView::Send(
                        AppEventView::AddDebug("Pressing "@ + seq!['\'', '\\', 'n', '\'']),
                    ),
                    CommandView::Tap('\n'),
                    CommandView::Sleep(1500),
                    CommandView::Sleep(1500),
                ],
            ),
        ),
        spec_decide(s, false, button, delay) == (
            Siege { routine: s.routine, pending: None },
            StepView::Done(
                seq![
                    CommandView::Send(AppEventView::UpdateStatus("Playing"@, "You are in game."@)),
                    CommandView::Send(AppEventView::AddDebug("Pressing "@ + seq!['\'', button, '\''])),
                    CommandView::Tap(button),
                    CommandView::Sleep(delay),
                ],
            ),
        ),
{
    lemma_play_key_tappable(button, delay);
    assert(spec_decide(s, true, button, delay).1 == StepView::Done(error_commands()));
    assert(error_commands() =~= seq![
        CommandView::Send(AppEventView::UpdateStatus("Error"@, "You're in an error screen!"@)),
        CommandView::Send(AppEventView::AddDebug("Pressing "@ + seq!['\'', '\\', 'n', '\''])),
        CommandView::Tap('\n'),
        CommandView::Sleep(1500),
        CommandView::Sleep(1500),
    ]);
    assert(button != '\n');
    assert(playing_commands(button, delay) =~= seq![
        CommandView::Send(AppEventView::UpdateStatus("Playing"@, "You are in game."@)),
        CommandView::Send(AppEventView::AddDebug("Pressing "@ + seq!['\'', button, '\''])),
        CommandView::Tap(button),
        CommandView::Sleep(delay),
    ]);
}

/// The `i`-th group of `w` commands of a list.
pub open spec fn group_at(cs: Seq<CommandView>, i: int, w: int) -> Seq<CommandView> {
    cs.subrange(i * w, i * w + w)
}

proof fn lemma_rounds_layout(button: char, k: nat, amount: nat, between: Option<u64>, w: int)
    requires
        w == (if between is Some { 3int } else { 2int }),
    ensures
        spec_press_rounds(button, k, amount, between).len() == k * w,
        forall|i: int|
            0 <= i < k ==> #[trigger] group_at(spec_press_rounds(button, k, amount, between), i, w)
                == seq![
                CommandView::Send(
                    AppEventView::AddDebug(
                        "Pressing "@ + spec_key_debug(button) + " ("@ + spec_decimal((i + 1) as nat)
                            + "/"@ + spec_decimal(amount) + ")"@,
                    ),
                ),
                CommandView::Tap(button),
            ] + (if between is Some { seq![CommandView::Sleep(between->0)] } else { seq![] }),
    decreases k,
{
    if k > 0 {
        lemma_rounds_layout(button, (k - 1) as nat, amount, between, w);
        let prev = spec_press_rounds(button, (k - 1) as nat, amount, between);
        let all = spec_press_rounds(button, k, amount, between);
        assert((k - 1) * w + w == k * w) by (nonlinear_arith)
            requires
                k >= 1,
        ;
        assert forall|i: int| 0 <= i < k implies #[trigger] group_at(all, i, w) == seq![
            CommandView::Send(
                AppEventView::AddDebug(
                    "Pressing "@ + spec_key_debug(button) + " ("@ + spec_decimal((i + 1) as nat)
                        + "/"@ + spec_decimal(amount) + ")"@,
                ),
            ),
            CommandView::Tap(button),
        ] + (if between is Some { seq![CommandView::Sleep(between->0)] } else { seq![] }) by {
            assert(0 <= i * w && i * w + w <= k * w) by (nonlinear_arith)
                requires
                    0 <= i < k,
                    w >= 2,
            ;
            if i < k - 1 {
                assert(i * w + w <= (k - 1) * w) by (nonlinear_arith)
                    requires
                        0 <= i < k - 1,
                        w >= 2,
                ;
                assert(group_at(all, i, w) =~= group_at(prev, i, w));
            } else {
                assert(i * w == (k - 1) * w);
                assert(group_at(all, i, w) =~= seq![
                    CommandView::Send(
                        AppEventView::AddDebug(spec_press_line(button, k, amount)),
                    ),
                    CommandView::Tap(button),
                ] + optional_sleep(between));
            }
        }
    }
}

/// Pressing a key `amount` times gives, for the `i`-th press (from 1), the
/// line "Pressing 'K' (i/amount)", the tap, and the pause between presses
/// if there is one; after all presses comes the pause at the end if there
/// is one, and nothing else.
pub proof fn lemma_press_buttons_layout(
    button: char,
    amount: nat,
    between: Option<u64>,
    at_end: Option<u64>,
)
    ensures
        ({
            let cs = spec_press_buttons(button, amount, between, at_end);
            let w = if between is Some { 3int } else { 2int };
            &&& cs.len() == amount * w + (if at_end is Some { 1int } else { 0int })
            &&& forall|i: int|
                0 <= i < amount ==> #[trigger] group_at(cs, i, w) == seq![
                    CommandView::Send(
                        AppEventView::AddDebug(
                            "Pressing "@ + spec_key_debug(button) + " ("@ + spec_decimal(
                                (i + 1) as nat,
                            ) + "/"@ + spec_decimal(amount) + ")"@,
                        ),
                    ),
                    CommandView::Tap(button),
                ] + (if between is Some { seq![CommandView::Sleep(between->0)] } else { seq![] })
            &&& at_end is Some ==> cs.last() == CommandView::Sleep(at_end->0)
        }),
{
    let w = if between is Some { 3int } else { 2int };
    lemma_rounds_layout(button, amount, amount, between, w);
    let rounds = spec_press_rounds(button, amount, amount, between);
    let cs = spec_press_buttons(button, amount, between, at_end);
    assert forall|i: int| 0 <= i < amount implies #[trigger] group_at(cs, i, w) == group_at(
        rounds,
        i,
        w,
    ) by {
        assert(0 <= i * w && i * w + w <= amount * w) by (nonlinear_arith)
            requires
                0 <= i < amount,
                w >= 2,
        ;
        assert(group_at(cs, i, w) =~= group_at(rounds, i, w));
    }
}

/// The robot loads four images: the menu's cogs, the error screen and the
/// two queue screens.
pub proof fn lemma_image_list()
    ensures
        spec_siege_images() == seq![
            "siege/cogs.png"@,
            "siege/in_game_error.png"@,
            "siege/in_queue_alt.png"@,
            "siege/in_queue.png"@,
        ],
{
}

} // verus!
