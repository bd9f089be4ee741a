//! The decisions of the interactive pan / zoom loop, as a state machine.
use vstd::prelude::*;

use crate::map::{is_view_command, view_after, Command, ViewState};

verus! {

/// Where the interactive loop stands.
#[derive(Clone, Copy, Debug, PartialEq, Eq, Structural)]
pub enum Phase {
    Idle,
    Rendering,
    AwaitingInput,
    Terminated,
}

/// What the loop's driver is to do next.
#[derive(Clone, Copy, Debug, PartialEq, Eq, Structural)]
pub enum Effect {
    /// Draw a frame of the current view and show it.
    Render,
    /// Leave the terminal's raw mode and stop.
    RestoreTerminal,
    /// Wait for the next input.
    Nothing,
}

/// The decisions of the interactive loop: it starts with one frame, then
/// re-renders on each command that changes the view, and ends on quit.
#[derive(Clone, Copy, Debug, PartialEq, Eq, Structural)]
pub struct Session {
    pub view: ViewState,
    pub phase: Phase,
}

impl Session {
    pub fn new(view: ViewState) -> (r: Session)
        ensures
            r.view == view,
            r.phase == Phase::Idle,
    {
        Session { view, phase: Phase::Idle }
    }

    /// Starts the loop: an idle session renders its first frame.
    pub fn start(&mut self) -> (e: Effect)
        ensures
            final(self).view == old(self).view,
            old(self).phase == Phase::Idle ==> e == Effect::Render && final(self).phase == Phase::Rendering,
            old(self).phase != Phase::Idle ==> e == Effect::Nothing && final(self).phase == old(self).phase,
    {
        if self.phase == Phase::Idle {
            self.phase = Phase::Rendering;
            Effect::Render
        } else {
            Effect::Nothing
        }
    }

    /// The frame asked for has been shown: the session waits for input.
    pub fn frame_shown(&mut self)
        ensures
            final(self).view == old(self).view,
            old(self).phase == Phase::Rendering ==> final(self).phase == Phase::AwaitingInput,
            old(self).phase != Phase::Rendering ==> final(self).phase == old(self).phase,
    {
        if self.phase == Phase::Rendering {
            self.phase = Phase::AwaitingInput;
        }
    }

    /// Handles one input command while waiting for input. Quit ends the
    /// session and asks for the terminal to be restored; a pan or zoom
    /// command changes the view and asks for a frame; anything else changes
    /// nothing.
    pub fn handle(&mut self, cmd: Command) -> (e: Effect)
        ensures
            old(self).phase != Phase::AwaitingInput ==> e == Effect::Nothing && *final(self) == *old(self),
            old(self).phase == Phase::AwaitingInput && cmd == Command::Quit ==> e == Effect::RestoreTerminal
                && final(self).phase == Phase::Terminated && final(self).view == old(self).view,
            old(self).phase == Phase::AwaitingInput && cmd == Command::Other ==> e == Effect::Nothing
                && *final(self) == *old(self),
            old(self).phase == Phase::AwaitingInput && is_view_command(cmd) ==> e == Effect::Render
                && final(self).phase == Phase::Rendering && final(self).view == view_after(old(self).view, cmd),
    {
        if self.phase != Phase::AwaitingInput {
            return Effect::Nothing;
        }
        match cmd {
            Command::Quit => {
                self.phase = Phase::Terminated;
                Effect::RestoreTerminal
            },
            Command::Other => Effect::Nothing,
            _ => {
                self.view = self.view.apply(cmd);
                self.phase = Phase::Rendering;
                Effect::Render
            },
        }
    }
}

} // verus!
