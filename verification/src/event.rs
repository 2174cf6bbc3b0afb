use vstd::prelude::*;
use vstd::string::*;

verus! {

/// The keys the front end reacts to; every other key is `Other`.
#[derive(Clone, Copy, Debug, PartialEq, Eq, Structural)]
pub enum KeyCode {
    Left,
    Right,
    Enter,
    Esc,
    Other,
}

/// Whether a key event reports the key going down, repeating or coming up.
#[derive(Clone, Copy, Debug, PartialEq, Eq, Structural)]
pub enum KeyKind {
    Press,
    Repeat,
    Release,
}

/// A key event as the front end sees it.
#[derive(Clone, Copy, Debug, PartialEq, Eq, Structural)]
pub struct KeyInput {
    pub code: KeyCode,
    pub kind: KeyKind,
}

/// What the input reader and the robot tell the front end.
pub enum AppEvent {
    KeyPressed(KeyInput),
    UpdateStatus((String, String)),
    AddDebug(String),
}

/// An `AppEvent` with its texts taken as character sequences.
pub enum AppEventView {
    KeyPressed(KeyInput),
    UpdateStatus(Seq<char>, Seq<char>),
    AddDebug(Seq<char>),
}

impl View for AppEvent {
    type V = AppEventView;

    open spec fn view(&self) -> AppEventView {
        match self {
            AppEvent::KeyPressed(k) => AppEventView::KeyPressed(*k),
            AppEvent::UpdateStatus((s, m)) => AppEventView::UpdateStatus(s@, m@),
            AppEvent::AddDebug(m) => AppEventView::AddDebug(m@),
        }
    }
}

/// A status update: a short status and a longer message.
pub fn status_event(status: &str, message: &str) -> (e: AppEvent)
    ensures
        e@ == AppEventView::UpdateStatus(status@, message@),
{
    AppEvent::UpdateStatus((String::from_str(status), String::from_str(message)))
}

/// A line for the debug console.
pub fn debug_event(line: String) -> (e: AppEvent)
    ensures
        e@ == AppEventView::AddDebug(line@),
{
    AppEvent::AddDebug(line)
}

/// What the robot asks its runner to do: tell the front end something, tap a
/// key, or sleep for some milliseconds.
pub enum Command {
    Send(AppEvent),
    Tap(char),
    Sleep(u64),
}

/// A `Command` with its event taken by its view.
pub enum CommandView {
    Send(AppEventView),
    Tap(char),
    Sleep(u64),
}

impl View for Command {
    type V = CommandView;

    open spec fn view(&self) -> CommandView {
        match self {
            Command::Send(e) => CommandView::Send(e@),
            Command::Tap(c) => CommandView::Tap(*c),
            Command::Sleep(ms) => CommandView::Sleep(*ms),
        }
    }
}

/// A list of commands taken command by command by its view.
pub open spec fn commands_view(cs: Seq<Command>) -> Seq<CommandView> {
    cs.map_values(|c: Command| c@)
}

/// The status update `(status, message)` as a command.
pub open spec fn status_command(status: Seq<char>, message: Seq<char>) -> CommandView {
    CommandView::Send(AppEventView::UpdateStatus(status, message))
}

/// The sleep that an optional delay asks for: one `Sleep`, or nothing.
pub open spec fn optional_sleep(delay: Option<u64>) -> Seq<CommandView> {
    match delay {
        Some(ms) => seq![CommandView::Sleep(ms)],
        None => seq![],
    }
}

/// An empty command list.
pub fn no_commands() -> (cs: Vec<Command>)
    ensures
        commands_view(cs@) == Seq::<CommandView>::empty(),
{
    let cs: Vec<Command> = Vec::new();
    assert(commands_view(cs@) =~= Seq::<CommandView>::empty());
    cs
}

/// Appends `c` to a command list.
pub fn push_command(cs: &mut Vec<Command>, c: Command)
    ensures
        commands_view(final(cs)@) == commands_view(old(cs)@).push(c@),
{
    let ghost before = cs@;
    cs.push(c);
    assert(commands_view(cs@) =~= commands_view(before).push(c@));
}

/// Appends the sleep of an optional delay to a command list.
pub fn push_optional_sleep(cs: &mut Vec<Command>, delay: Option<u64>)
    ensures
        commands_view(final(cs)@) == commands_view(old(cs)@) + optional_sleep(delay),
{
    let ghost before = commands_view(cs@);
    match delay {
        Some(ms) => {
            push_command(cs, Command::Sleep(ms));
            assert(commands_view(cs@) =~= before + optional_sleep(delay));
        },
        None => {
            assert(commands_view(cs@) =~= before + optional_sleep(delay));
        },
    }
}

/// Appends a status update to a command list.
pub fn push_status(cs: &mut Vec<Command>, status: &str, message: &str)
    ensures
        commands_view(final(cs)@) == commands_view(old(cs)@).push(status_command(status@, message@)),
{
    push_command(cs, Command::Send(status_event(status, message)));
}

/// Appends the commands of `more` to a command list.
pub fn append_commands(cs: &mut Vec<Command>, more: Vec<Command>)
    ensures
        commands_view(final(cs)@) == commands_view(old(cs)@) + commands_view(more@),
{
    let ghost before = cs@;
    let ghost added = more@;
    let mut more = more;
    cs.append(&mut more);
    assert(commands_view(cs@) =~= commands_view(before) + commands_view(added));
}

} // verus!
