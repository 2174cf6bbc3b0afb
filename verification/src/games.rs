use vstd::prelude::*;

use crate::event::{commands_view, Command, CommandView};

verus! {

/// A look at the screen: is this image (a path under the assets directory)
/// visible with at least this confidence, in percent, and this colour
/// tolerance?
pub struct ScreenCheck {
    pub image: &'static str,
    pub confidence_percent: u8,
    pub tolerance: u8,
}

/// A `ScreenCheck` with its image path taken as a character sequence.
pub struct ScreenCheckView {
    pub image: Seq<char>,
    pub confidence_percent: u8,
    pub tolerance: u8,
}

impl View for ScreenCheck {
    type V = ScreenCheckView;

    open spec fn view(&self) -> ScreenCheckView {
        ScreenCheckView {
            image: self.image@,
            confidence_percent: self.confidence_percent,
            tolerance: self.tolerance,
        }
    }
}

/// What a game robot asks for next: carry out these commands, then look at
/// the screen and report whether the image was seen; or carry out these
/// commands, which end the routine.
pub enum Step {
    Look(Vec<Command>, ScreenCheck),
    Done(Vec<Command>),
}

/// A `Step` taken by its view.
pub enum StepView {
    Look(Seq<CommandView>, ScreenCheckView),
    Done(Seq<CommandView>),
}

impl View for Step {
    type V = StepView;

    open spec fn view(&self) -> StepView {
        match self {
            Step::Look(cs, c) => StepView::Look(commands_view(cs@), c@),
            Step::Done(cs) => StepView::Done(commands_view(cs@)),
        }
    }
}

/// A step agrees with the robot's state after it: a robot that asks for a
/// look waits for exactly that look, and one that is done waits for nothing.
pub open spec fn step_agrees(pending: Option<ScreenCheckView>, step: StepView) -> bool {
    match step {
        StepView::Look(_, c) => pending == Some(c),
        StepView::Done(_) => pending is None,
    }
}

/// A game that can be farmed. Each routine is a short dialogue: the robot
/// asks for screen checks one at a time and, once it has seen enough, hands
/// back the commands that finish the routine.
pub trait Game {
    /// The screen check whose answer the robot waits for, if any.
    spec fn pending_check(&self) -> Option<ScreenCheckView>;

    /// Starts the routine run once, when farming begins.
    fn startup(&mut self) -> (step: Step)
        ensures
            step_agrees(final(self).pending_check(), step@),
    ;

    /// Starts one round of the routine that repeats while farming.
    fn game_loop(&mut self) -> (step: Step)
        ensures
            step_agrees(final(self).pending_check(), step@),
    ;

    /// Hands the robot the answer to the check it asked for.
    fn observe(&mut self, seen: bool) -> (step: Step)
        requires
            old(self).pending_check() is Some,
        ensures
            step_agrees(final(self).pending_check(), step@),
    ;
}

} // verus!
