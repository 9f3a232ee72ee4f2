//! The question that comes up when the last window is closed.

use vstd::prelude::*;

verus! {

/// The question, with its mark not to be asked again.
#[derive(Clone, Debug, PartialEq)]
pub struct CloseConfirmation {
    pub dont_ask_again: bool,
}

/// What comes of an answer: whether the application exits, and whether the question comes up the
/// next time.
#[derive(Clone, Copy, PartialEq, Eq, Structural, Debug)]
pub struct CloseDecision {
    pub exits: bool,
    pub confirm_close_on_exit: bool,
}

impl CloseConfirmation {
    /// The question as it comes up: marked not to be asked again.
    pub fn new() -> (r: CloseConfirmation)
        ensures
            r.dont_ask_again,
    {
        CloseConfirmation { dont_ask_again: true }
    }

    /// Sets or removes the mark.
    pub fn toggle(&mut self)
        ensures
            final(self).dont_ask_again == !old(self).dont_ask_again,
    {
        self.dont_ask_again = !self.dont_ask_again;
    }

    /// The answer: only a confirmation exits. Where the mark is set either answer is the last one.
    pub fn answer(&self, confirmed: bool) -> (r: CloseDecision)
        ensures
            r.exits == confirmed,
            r.confirm_close_on_exit == !self.dont_ask_again,
    {
        CloseDecision { exits: confirmed, confirm_close_on_exit: !self.dont_ask_again }
    }
}

} // verus!
