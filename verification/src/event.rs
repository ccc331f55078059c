//! Event plumbing: where errors come from, and the browser key codes.

pub mod keycode;

use vstd::prelude::*;

verus! {

/// Where an error originated.
#[derive(Debug, Copy, Clone, Eq, PartialEq, Structural)]
pub enum ErrorOrigin {
    /// error originated in `update()`
    Update,
    /// error originated in `draw()`
    Draw,
}

/// What a frame starts with.
#[derive(Debug, Copy, Clone, Eq, PartialEq, Structural)]
pub enum FrameStep {
    /// The game was asked to quit: stop the loop instead of updating.
    Quit,
    /// Tick the timer and run the game's update.
    Update,
}

/// Whether the game loop goes on.
pub struct RunState {
    continuing: bool,
}

impl RunState {
    pub closed spec fn continuing(&self) -> bool {
        self.continuing
    }

    /// A loop that has not been asked to quit.
    pub fn new() -> (s: RunState)
        ensures
            s.continuing(),
    {
        RunState { continuing: true }
    }

    /// Whether the loop goes on.
    pub fn is_continuing(&self) -> (b: bool)
        ensures
            b == self.continuing(),
    {
        self.continuing
    }

    /// How a frame starts: it quits once the loop was asked to.
    pub fn frame_step(&self) -> (step: FrameStep)
        ensures
            step == if self.continuing() { FrameStep::Update } else { FrameStep::Quit },
    {
        if self.continuing {
            FrameStep::Update
        } else {
            FrameStep::Quit
        }
    }

    /// The game's update or draw failed, and its error handler answered
    /// whether to quit on that error.
    pub fn handler_failed(&mut self, quit_on_error: bool)
        ensures
            final(self).continuing() == (old(self).continuing() && !quit_on_error),
    {
        if quit_on_error {
            quit(self);
        }
    }
}

/// Terminates the game loop: the next frame quits.
pub fn quit(state: &mut RunState)
    ensures
        !final(state).continuing(),
{
    state.continuing = false;
}

} // verus!
