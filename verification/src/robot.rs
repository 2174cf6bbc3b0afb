use vstd::prelude::*;
use vstd::string::*;

use crate::event::{
    commands_view, debug_event, push_command, push_status, status_command, AppEventView, Command,
    CommandView,
};
use crate::registry::GameRegistry;
use crate::text::{decimal, spec_decimal};

verus! {

/// The names games are registered under, in the order they are registered;
/// every one is farmed by the Rainbow Six Siege robot.
pub open spec fn spec_game_names() -> Seq<Seq<char>> {
    seq!["siege"@, "apex"@, "xdefiant"@]
}

/// The names games are registered under.
pub fn game_names() -> (names: Vec<&'static str>)
    ensures
        names@.map_values(|n: &'static str| n@) == spec_game_names(),
{
    let names: Vec<&'static str> = vec!["siege", "apex", "xdefiant"];
    assert(names@.map_values(|n: &'static str| n@) =~= spec_game_names());
    names
}

/// Games that can be selected but are not farmed yet.
pub open spec fn is_unsupported(name: Seq<char>) -> bool {
    name == "apex"@ || name == "xdefiant"@
}

/// Whether the selected game is one that is not farmed yet.
pub fn unsupported_game(name: &str) -> (b: bool)
    ensures
        b == is_unsupported(name@),
{
    let selected = String::from_str(name);
    let apex = String::from_str("apex");
    let xdefiant = String::from_str("xdefiant");
    selected == apex || selected == xdefiant
}

/// What the robot says about a selection, and whether it goes on with it:
/// an unsupported game is refused and the robot waits for another choice;
/// any other is accepted.
pub open spec fn spec_review(name: Seq<char>) -> (bool, Seq<CommandView>) {
    if is_unsupported(name) {
        (false, seq![status_command("Error"@, "This game is not yet supported!"@)])
    } else {
        (
            true,
            seq![
                status_command(
                    "Starting"@,
                    "Please quickly tab into the game you have selected."@,
                ),
            ],
        )
    }
}

/// Reviews the game the user selected.
pub fn review_selection(name: &str) -> (r: (bool, Vec<Command>))
    ensures
        (r.0, commands_view(r.1@)) == spec_review(name@),
{
    let mut cs: Vec<Command> = Vec::new();
    if unsupported_game(name) {
        push_status(&mut cs, "Error", "This game is not yet supported!");
        assert(commands_view(cs@) =~= spec_review(name@).1);
        (false, cs)
    } else {
        push_status(&mut cs, "Starting", "Please quickly tab into the game you have selected.");
        assert(commands_view(cs@) =~= spec_review(name@).1);
        (true, cs)
    }
}

/// The seconds the robot counts down before it starts farming.
pub const COUNTDOWN_SECONDS: u64 = 5;

/// The countdown line shown with `left` seconds to go.
pub open spec fn countdown_line(left: nat) -> Seq<char> {
    "Starting in "@ + spec_decimal(left) + "..."@
}

/// The countdown from `left` seconds: for each second, a debug line and a
/// one-second sleep.
pub open spec fn spec_countdown(left: nat) -> Seq<CommandView>
    decreases left,
{
    if left == 0 {
        seq![]
    } else {
        seq![
            CommandView::Send(AppEventView::AddDebug(countdown_line(left))),
            CommandView::Sleep(1000),
        ] + spec_countdown((left - 1) as nat)
    }
}

/// The commands that count down before farming starts.
pub fn countdown_commands() -> (cs: Vec<Command>)
    ensures
        commands_view(cs@) == spec_countdown(COUNTDOWN_SECONDS as nat),
{
    let mut cs: Vec<Command> = Vec::new();
    let mut left: u64 = COUNTDOWN_SECONDS;
    assert(commands_view(cs@) + spec_countdown(left as nat) =~= spec_countdown(
        COUNTDOWN_SECONDS as nat,
    ));
    while left > 0
        invariant
            left <= COUNTDOWN_SECONDS,
            commands_view(cs@) + spec_countdown(left as nat) == spec_countdown(
                COUNTDOWN_SECONDS as nat,
            ),
        decreases left,
    {
        let ghost before = commands_view(cs@);
        let mut line = String::from_str("Starting in ");
        let digits = decimal(left);
        line.append(digits.as_str());
        line.append("...");
        push_command(&mut cs, Command::Send(debug_event(line)));
        push_command(&mut cs, Command::Sleep(1000));
        assert(before + spec_countdown(left as nat) =~= commands_view(cs@) + spec_countdown(
            (left - 1) as nat,
        ));
        left = left - 1;
    }
    assert(commands_view(cs@) + spec_countdown(0) =~= commands_view(cs@));
    cs
}

/// Why the robot stops.
#[derive(Clone, Copy, Debug, PartialEq, Eq, Structural)]
pub enum RobotError {
    GameNotFound,
}

impl RobotError {
    /// The message the robot stops with.
    pub fn message(&self) -> (m: &'static str)
        ensures
            m@ == "Failed to find the game you're looking for!"@,
    {
        match self {
            RobotError::GameNotFound => "Failed to find the game you're looking for!",
        }
    }
}

/// Takes the selected game out of the registry; a name that no game is
/// registered under stops the robot.
pub fn take_game<G>(games: &mut GameRegistry<G>, name: &str) -> (r: Result<G, RobotError>)
    requires
        old(games).wf(),
    ensures
        final(games).wf(),
        final(games)@ == old(games)@.remove(name@),
        r matches Ok(g) ==> old(games)@.dom().contains(name@) && g == old(games)@[name@],
        r is Err ==> !old(games)@.dom().contains(name@) && r == Err::<G, RobotError>(
            RobotError::GameNotFound,
        ),
{
    match games.remove(name) {
        Some(g) => Ok(g),
        None => Err(RobotError::GameNotFound),
    }
}

/// Refusing and accepting a game: Apex Legends and XDefiant are refused with
/// the status "Error" / "This game is not yet supported!" and the robot
/// keeps waiting; any other name is accepted with "Starting" / "Please
/// quickly tab into the game you have selected.".
pub proof fn lemma_review_outcomes(name: Seq<char>)
    ensures
        spec_review("apex"@) == (
            false,
            seq![CommandView::Send(AppEventView::UpdateStatus("Error"@, "This game is not yet supported!"@))],
        ),
        spec_review("xdefiant"@) == (
            false,
            seq![CommandView::Send(AppEventView::UpdateStatus("Error"@, "This game is not yet supported!"@))],
        ),
        name != "apex"@ && name != "xdefiant"@ ==> spec_review(name) == (
            true,
            seq![
                CommandView::Send(
                    AppEventView::UpdateStatus(
                        "Starting"@,
                        "Please quickly tab into the game you have selected."@,
                    ),
                ),
            ],
        ),
{
}

/// The countdown from `left` seconds shows "Starting in left...", then one
/// less, down to "Starting in 1...", each followed by a one-second sleep.
pub proof fn lemma_countdown_layout(left: nat)
    ensures
        spec_countdown(left).len() == 2 * left,
        forall|j: int|
            0 <= j < left ==> spec_countdown(left)[2 * j] == CommandView::Send(
                AppEventView::AddDebug(
                    "Starting in "@ + #[trigger] spec_decimal((left - j) as nat) + "..."@,
                ),
            ) && spec_countdown(left)[2 * j + 1] == CommandView::Sleep(1000),
    decreases left,
{
    if left > 0 {
        lemma_countdown_layout((left - 1) as nat);
        let rest = spec_countdown((left - 1) as nat);
        let all = spec_countdown(left);
        assert forall|j: int| 0 <= j < left implies all[2 * j] == CommandView::Send(
            AppEventView::AddDebug(
                "Starting in "@ + #[trigger] spec_decimal((left - j) as nat) + "..."@,
            ),
        ) && all[2 * j + 1] == CommandView::Sleep(1000) by {
            if j > 0 {
                assert(all[2 * j] == rest[2 * (j - 1)]);
                assert(all[2 * j + 1] == rest[2 * (j - 1) + 1]);
                assert(spec_decimal(((left - 1) - (j - 1)) as nat) == spec_decimal((left - j) as nat));
            }
        }
    }
}

/// Games are registered as "siege", "apex" and "xdefiant", in that order.
pub proof fn lemma_registered_names()
    ensures
        spec_game_names() == seq!["siege"@, "apex"@, "xdefiant"@],
        is_unsupported("apex"@),
        is_unsupported("xdefiant"@),
{
}

} // verus!
