use vstd::prelude::*;
use vstd::string::*;

use crate::event::{AppEvent, AppEventView, KeyCode, KeyInput, KeyKind};
use crate::registry::texts;
use crate::text::{decimal, spec_decimal};

verus! {

/// The menu entry that quits the program; it is always the last entry.
pub open spec fn exit_title() -> Seq<char> {
    "exit (esc)"@
}

/// The ticks the exit countdown runs before the program quits.
pub const EXIT_TICKS: u32 = 4;

/// What the terminal front end shows and remembers.
pub struct TuiState {
    pub menu_titles: Vec<String>,
    pub active_menu_item: usize,
    pub status: String,
    pub status_message: String,
    pub debug_console: Vec<String>,
    pub exit: bool,
    pub exit_counter: u32,
}

/// A `TuiState` with its texts taken as character sequences.
pub struct TuiView {
    pub menu: Seq<Seq<char>>,
    pub active: int,
    pub status: Seq<char>,
    pub message: Seq<char>,
    pub console: Seq<Seq<char>>,
    pub exit: bool,
    pub exit_counter: nat,
}

impl View for TuiState {
    type V = TuiView;

    open spec fn view(&self) -> TuiView {
        TuiView {
            menu: texts(self.menu_titles@),
            active: self.active_menu_item as int,
            status: self.status@,
            message: self.status_message@,
            console: texts(self.debug_console@),
            exit: self.exit,
            exit_counter: self.exit_counter as nat,
        }
    }
}

/// The front end's invariant: the menu ends with the exit entry, the
/// highlighted entry is one of the menu's, and the exit countdown never
/// runs above its start.
pub open spec fn tui_wf(v: TuiView) -> bool {
    &&& v.menu.len() >= 1
    &&& v.menu.last() == exit_title()
    &&& 0 <= v.active < v.menu.len()
    &&& v.exit_counter <= EXIT_TICKS
}

/// The front end on its way out: it says goodbye, clears the console and
/// starts the exit countdown.
pub open spec fn exiting(v: TuiView) -> TuiView {
    TuiView {
        status: "Exiting"@,
        message: "Have a wonderful day!"@,
        console: seq![],
        exit: true,
        ..v
    }
}

/// How long the program must have run before Enter is acted on, in
/// milliseconds, so that the key that started it is not taken as a choice.
pub const WARM_UP_MS: u64 = 500;

/// Whether the program has run long enough for Enter to count.
pub open spec fn is_warmed_up(elapsed_ms: u64) -> bool {
    elapsed_ms >= WARM_UP_MS
}

/// How the front end reacts to an event that arrives `elapsed_ms` after it
/// started: released arrow keys move the highlight within the menu, a
/// released Enter (once the program has run for half a second) selects the highlighted entry and hands its title to the robot,
/// selecting the exit entry or releasing Esc starts the exit, a status update
/// replaces the status and clears the console, and a debug line is appended
/// to the console. Anything else changes nothing.
pub open spec fn spec_handle(v: TuiView, e: AppEventView, elapsed_ms: u64) -> (
    TuiView,
    Option<Seq<char>>,
) {
    match e {
        AppEventView::KeyPressed(k) => if k.kind == KeyKind::Release {
            match k.code {
                KeyCode::Left => if v.active > 0 {
                    (TuiView { active: v.active - 1, ..v }, None)
                } else {
                    (v, None)
                },
                KeyCode::Right => if v.active < v.menu.len() - 1 {
                    (TuiView { active: v.active + 1, ..v }, None)
                } else {
                    (v, None)
                },
                KeyCode::Enter => if !is_warmed_up(elapsed_ms) {
                    (v, None)
                } else if v.active == v.menu.len() - 1 {
                    (exiting(v), Some(v.menu[v.active]))
                } else {
                    (v, Some(v.menu[v.active]))
                },
                KeyCode::Esc => (exiting(v), None),
                KeyCode::Other => (v, None),
            }
        } else {
            (v, None)
        },
        AppEventView::UpdateStatus(s, m) => (
            TuiView { status: s, message: m, console: seq![], ..v },
            None,
        ),
        AppEventView::AddDebug(line) => (TuiView { console: v.console.push(line), ..v }, None),
    }
}

/// An optional string taken as an optional character sequence.
pub open spec fn opt_text(o: Option<String>) -> Option<Seq<char>> {
    match o {
        Some(s) => Some(s@),
        None => None,
    }
}

/// The console line of an exit countdown tick with `left` ticks to go
/// before it.
pub open spec fn exit_line(left: nat) -> Seq<char> {
    if left == 0 {
        "Stay cozy :3"@
    } else {
        "Exiting in "@ + spec_decimal(left) + "..."@
    }
}

/// What a tick of the exit countdown asks of the runner.
#[derive(Clone, Copy, Debug, PartialEq, Eq, Structural)]
pub enum ExitTick {
    /// Sleep a second and draw again.
    Continue,
    /// Sleep a second, clear the terminal and quit.
    Quit,
}

/// One tick of the exit countdown: while ticks are left, log a line and use
/// one up; then quit.
pub open spec fn spec_exit_tick(v: TuiView) -> (TuiView, ExitTick) {
    if v.exit_counter > 0 {
        (
            TuiView {
                console: v.console.push(exit_line((v.exit_counter - 1) as nat)),
                exit_counter: (v.exit_counter - 1) as nat,
                ..v
            },
            ExitTick::Continue,
        )
    } else {
        (v, ExitTick::Quit)
    }
}

/// The lines of the debug console as the body shows them, one per line.
pub open spec fn console_text(lines: Seq<Seq<char>>) -> Seq<char>
    decreases lines.len(),
{
    if lines.len() == 0 {
        seq![]
    } else if lines.len() == 1 {
        "<= - "@ + lines[0]
    } else {
        console_text(lines.drop_last()) + "\n"@ + "<= - "@ + lines.last()
    }
}

/// The text of the information panel.
pub open spec fn body_text(v: TuiView) -> Seq<char> {
    "<= Status: "@ + v.status + "\n<= Message: "@ + v.message + "\n\n<= Debug Console:\n"@
        + console_text(v.console)
}

/// Splits a menu title after its first character, which the menu
/// highlights; the first character must be a single byte, as splitting a
/// string after its first byte demands.
pub fn split_title(title: &str) -> (parts: (&str, &str))
    requires
        title@.len() > 0,
        (title@[0] as int) < 128,
    ensures
        parts.0@ == title@.subrange(0, 1),
        parts.1@ == title@.subrange(1, title@.len() as int),
{
    let n = title.unicode_len();
    (title.substring_char(0, 1), title.substring_char(1, n))
}

impl TuiState {
    /// The front end at start: the given titles followed by the exit entry,
    /// the first entry highlighted, nothing selected yet.
    pub fn new(menu_titles: Vec<String>) -> (s: TuiState)
        ensures
            tui_wf(s@),
            s@ == (TuiView {
                menu: texts(menu_titles@).push(exit_title()),
                active: 0,
                status: "Inactive"@,
                message: "Please select a game!"@,
                console: seq![],
                exit: false,
                exit_counter: EXIT_TICKS as nat,
            }),
    {
        let mut menu_titles = menu_titles;
        let ghost before = menu_titles@;
        menu_titles.push(String::from_str("exit (esc)"));
        assert(texts(menu_titles@) =~= texts(before).push(exit_title()));
        let s = TuiState {
            menu_titles,
            active_menu_item: 0,
            status: String::from_str("Inactive"),
            status_message: String::from_str("Please select a game!"),
            debug_console: Vec::new(),
            exit: false,
            exit_counter: EXIT_TICKS,
        };
        assert(texts(s.debug_console@) =~= seq![]);
        s
    }

    fn start_exit(&mut self)
        ensures
            final(self)@ == exiting(old(self)@),
    {
        self.status = String::from_str("Exiting");
        self.status_message = String::from_str("Have a wonderful day!");
        self.debug_console = Vec::new();
        self.exit = true;
        assert(texts(self.debug_console@) =~= seq![]);
    }

    /// Reacts to `event`, which arrived `elapsed_ms` milliseconds after the
    /// front end started. Returns the title to hand to the robot, if any.
    pub fn handle_event(&mut self, event: AppEvent, elapsed_ms: u64) -> (selected: Option<
        String,
    >)
        requires
            tui_wf(old(self)@),
        ensures
            tui_wf(final(self)@),
            (final(self)@, opt_text(selected)) == spec_handle(
                old(self)@,
                event@,
                elapsed_ms,
            ),
    {
        match event {
            AppEvent::KeyPressed(key) => {
                if key.kind == KeyKind::Release {
                    match key.code {
                        KeyCode::Left => {
                            if self.active_menu_item > 0 {
                                self.active_menu_item = self.active_menu_item - 1;
                            }
                            None
                        },
                        KeyCode::Right => {
                            if self.active_menu_item < self.menu_titles.len() - 1 {
                                self.active_menu_item = self.active_menu_item + 1;
                            }
                            None
                        },
                        KeyCode::Enter => {
                            if elapsed_ms < WARM_UP_MS {
                                return None;
                            }
                            let chosen = self.menu_titles[self.active_menu_item].clone();
                            if self.active_menu_item == self.menu_titles.len() - 1 {
                                self.start_exit();
                            }
                            Some(chosen)
                        },
                        KeyCode::Esc => {
                            self.start_exit();
                            None
                        },
                        KeyCode::Other => None,
                    }
                } else {
                    None
                }
            },
            AppEvent::UpdateStatus((new_status, new_message)) => {
                self.status = new_status;
                self.status_message = new_message;
                self.debug_console.clear();
                assert(texts(self.debug_console@) =~= seq![]);
                None
            },
            AppEvent::AddDebug(message) => {
                let ghost before = self.debug_console@;
                let ghost line = message@;
                self.debug_console.push(message);
                assert(texts(self.debug_console@) =~= texts(before).push(line));
                None
            },
        }
    }

    /// The text of the information panel: status, message and console.
    pub fn body(&self) -> (text: String)
        ensures
            text@ == body_text(self@),
    {
        let lines = &self.debug_console;
        let n = lines.len();
        let mut console = String::new();
        let mut i: usize = 0;
        while i < n
            invariant
                n == lines@.len(),
                i <= n,
                console@ == console_text(texts(lines@).subrange(0, i as int)),
            decreases n - i,
        {
            if i > 0 {
                console.append("\n");
            }
            console.append("<= - ");
            console.append(lines[i].as_str());
            let ghost done = texts(lines@).subrange(0, i + 1);
            assert(done.drop_last() =~= texts(lines@).subrange(0, i as int));
            if i == 0 {
                assert(done =~= seq![lines@[0]@]);
            }
            i = i + 1;
        }
        assert(texts(lines@).subrange(0, n as int) =~= texts(lines@));
        let mut text = String::from_str("<= Status: ");
        text.append(self.status.as_str());
        text.append("\n<= Message: ");
        text.append(self.status_message.as_str());
        text.append("\n\n<= Debug Console:\n");
        text.append(console.as_str());
        text
    }

    /// One tick of the exit countdown.
    pub fn exit_tick(&mut self) -> (tick: ExitTick)
        requires
            tui_wf(old(self)@),
        ensures
            tui_wf(final(self)@),
            (final(self)@, tick) == spec_exit_tick(old(self)@),
    {
        if self.exit_counter > 0 {
            let line = if self.exit_counter == 1 {
                String::from_str("Stay cozy :3")
            } else {
                let mut line = String::from_str("Exiting in ");
                let digits = decimal((self.exit_counter - 1) as u64);
                line.append(digits.as_str());
                line.append("...");
                line
            };
            let ghost before = self.debug_console@;
            let ghost text = line@;
            self.debug_console.push(line);
            assert(texts(self.debug_console@) =~= texts(before).push(text));
            self.exit_counter = self.exit_counter - 1;
            ExitTick::Continue
        } else {
            ExitTick::Quit
        }
    }
}

/// Once the front end is on its way out, no event brings it back, and the
/// countdown keeps it on its way out.
pub proof fn lemma_exit_is_final(v: TuiView, e: AppEventView, elapsed_ms: u64)
    requires
        v.exit,
    ensures
        spec_handle(v, e, elapsed_ms).0.exit,
        spec_exit_tick(v).0.exit,
{
}

/// The front end after `n` ticks of the exit countdown.
pub open spec fn after_exit_ticks(v: TuiView, n: nat) -> TuiView
    decreases n,
{
    if n == 0 {
        v
    } else {
        after_exit_ticks(spec_exit_tick(v).0, (n - 1) as nat)
    }
}

/// The exit countdown runs exactly as many ticks as it has left, each
/// adding one console line, and then quits.
pub proof fn lemma_exit_countdown_ends(v: TuiView, n: nat)
    requires
        n <= v.exit_counter,
    ensures
        after_exit_ticks(v, n).exit_counter == v.exit_counter - n,
        after_exit_ticks(v, n).console.len() == v.console.len() + n,
        n < v.exit_counter ==> spec_exit_tick(after_exit_ticks(v, n)).1 == ExitTick::Continue,
        n == v.exit_counter ==> spec_exit_tick(after_exit_ticks(v, n)).1 == ExitTick::Quit,
    decreases n,
{
    if n > 0 {
        lemma_exit_countdown_ends(spec_exit_tick(v).0, (n - 1) as nat);
    }
}

/// Only released keys count: a key going down or repeating changes nothing
/// and selects nothing, whatever the key and whenever it comes.
pub proof fn lemma_unreleased_keys_ignored(v: TuiView, k: KeyInput, elapsed_ms: u64)
    requires
        k.kind != KeyKind::Release,
    ensures
        spec_handle(v, AppEventView::KeyPressed(k), elapsed_ms) == (v, None::<Seq<char>>),
{
}

/// Keys other than the arrows, Enter and Esc change nothing and select
/// nothing, released or not.
pub proof fn lemma_other_keys_ignored(v: TuiView, kind: KeyKind, elapsed_ms: u64)
    ensures
        spec_handle(v, AppEventView::KeyPressed(KeyInput { code: KeyCode::Other, kind }), elapsed_ms)
            == (v, None::<Seq<char>>),
{
}

/// A released arrow key moves the highlight one entry, stopping at either
/// end of the menu, and changes and selects nothing else.
pub proof fn lemma_arrows_move_by_one(v: TuiView, elapsed_ms: u64)
    requires
        tui_wf(v),
    ensures
        ({
            let (w, sel) = spec_handle(
                v,
                AppEventView::KeyPressed(KeyInput { code: KeyCode::Left, kind: KeyKind::Release }),
                elapsed_ms,
            );
            &&& sel is None
            &&& w.active == if v.active == 0 { 0 } else { v.active - 1 }
            &&& w == TuiView { active: w.active, ..v }
        }),
        ({
            let (w, sel) = spec_handle(
                v,
                AppEventView::KeyPressed(KeyInput { code: KeyCode::Right, kind: KeyKind::Release }),
                elapsed_ms,
            );
            &&& sel is None
            &&& w.active == if v.active + 1 == v.menu.len() { v.active } else { v.active + 1 }
            &&& w == TuiView { active: w.active, ..v }
        }),
{
}

/// A released Enter before half a second has passed changes nothing; after
/// it, Enter hands over the highlighted title, and on the last entry (exit)
/// also starts exiting: status "Exiting", message "Have a wonderful day!",
/// an empty console.
pub proof fn lemma_enter_selects(v: TuiView, elapsed_ms: u64)
    requires
        tui_wf(v),
    ensures
        ({
            let (w, sel) = spec_handle(
                v,
                AppEventView::KeyPressed(KeyInput { code: KeyCode::Enter, kind: KeyKind::Release }),
                elapsed_ms,
            );
            &&& elapsed_ms < 500 ==> w == v && sel is None
            &&& elapsed_ms >= 500 ==> sel == Some(v.menu[v.active])
            &&& elapsed_ms >= 500 && v.active + 1 < v.menu.len() ==> w == v
            &&& elapsed_ms >= 500 && v.active + 1 == v.menu.len() ==> w == TuiView {
                status: "Exiting"@,
                message: "Have a wonderful day!"@,
                console: seq![],
                exit: true,
                ..v
            }
        }),
{
}

/// A released Esc starts exiting without selecting anything.
pub proof fn lemma_escape_exits(v: TuiView, elapsed_ms: u64)
    ensures
        spec_handle(
            v,
            AppEventView::KeyPressed(KeyInput { code: KeyCode::Esc, kind: KeyKind::Release }),
            elapsed_ms,
        ) == (
            TuiView {
                status: "Exiting"@,
                message: "Have a wonderful day!"@,
                console: seq![],
                exit: true,
                ..v
            },
            None::<Seq<char>>,
        ),
{
}

/// A status update replaces status and message and always empties the
/// console; a debug line is appended to the console. Neither touches
/// anything else or selects anything.
pub proof fn lemma_robot_messages(
    v: TuiView,
    status: Seq<char>,
    message: Seq<char>,
    line: Seq<char>,
    elapsed_ms: u64,
)
    ensures
        spec_handle(v, AppEventView::UpdateStatus(status, message), elapsed_ms) == (
            TuiView { status: status, message: message, console: Seq::<Seq<char>>::empty(), ..v },
            None::<Seq<char>>,
        ),
        spec_handle(v, AppEventView::UpdateStatus(status, message), elapsed_ms).0.console.len()
            == 0,
        spec_handle(v, AppEventView::AddDebug(line), elapsed_ms) == (
            TuiView { console: v.console.push(line), ..v },
            None::<Seq<char>>,
        ),
{
}

/// The console text is the lines, each behind "<= - ", separated by single
/// newlines: one line gives "<= - line", and each further line adds a
/// newline, "<= - " and the line.
pub proof fn lemma_console_lines(lines: Seq<Seq<char>>, x: Seq<char>)
    ensures
        console_text(Seq::<Seq<char>>::empty()) == Seq::<char>::empty(),
        console_text(seq![x]) == "<= - "@ + x,
        lines.len() > 0 ==> console_text(lines.push(x)) == console_text(lines) + "\n"@ + "<= - "@
            + x,
{
    assert(seq![x][0] == x);
    if lines.len() > 0 {
        assert(lines.push(x).drop_last() =~= lines);
    }
}

/// The panel shows the status, the message and then the console, each
/// behind its label.
pub proof fn lemma_body_layout(v: TuiView)
    ensures
        body_text(v) == "<= Status: "@ + v.status + "\n<= Message: "@ + v.message
            + "\n\n<= Debug Console:\n"@ + console_text(v.console),
{
}

/// The exit countdown logs "Exiting in 3...", "Exiting in 2...",
/// "Exiting in 1..." (in general, the ticks still to come after this one)
/// and, on its last tick, "Stay cozy :3".
pub proof fn lemma_exit_lines(v: TuiView)
    requires
        v.exit_counter > 0,
    ensures
        spec_exit_tick(v).0.console.len() == v.console.len() + 1,
        spec_exit_tick(v).0.console.drop_last() == v.console,
        v.exit_counter == 1 ==> spec_exit_tick(v).0.console.last() == "Stay cozy :3"@,
        v.exit_counter > 1 ==> spec_exit_tick(v).0.console.last() == "Exiting in "@
            + spec_decimal((v.exit_counter - 1) as nat) + "..."@,
        spec_exit_tick(v).0.exit_counter == v.exit_counter - 1,
        spec_exit_tick(v).1 == ExitTick::Continue,
{
    assert(spec_exit_tick(v).0.console.drop_last() =~= v.console);
}

} // verus!
