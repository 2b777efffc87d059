//! Session window tracker: the retained range of sessions, advanced only
//! forward; advancing computes the new retention floor for pruning.

use vstd::prelude::*;

use crate::types::AdvanceError;
use crate::types::SessionIndex;

verus! {

/// The lowest retained session for a window topped at `highest` with the
/// given retention: `highest - retention`, saturating at zero.
pub open spec fn floor_spec(highest: SessionIndex, retention: SessionIndex) -> int {
    if highest >= retention {
        highest - retention
    } else {
        0
    }
}

/// Whether `session` lies in the inclusive window `[highest - retention, highest]`.
pub open spec fn in_window_spec(
    highest: SessionIndex,
    retention: SessionIndex,
    session: SessionIndex,
) -> bool {
    floor_spec(highest, retention) <= session <= highest
}

/// Tracks the highest session seen and the configured retention, which
/// together bound the window of sessions whose records are kept.
pub struct SessionWindow {
    pub highest: SessionIndex,
    pub retention: SessionIndex,
}

impl SessionWindow {
    /// A window topped at session zero.
    pub fn new(retention: SessionIndex) -> (w: SessionWindow)
        ensures
            w.highest == 0,
            w.retention == retention,
    {
        SessionWindow { highest: 0, retention }
    }

    /// The lowest retained session.
    pub fn floor(&self) -> (f: SessionIndex)
        ensures
            f as int == floor_spec(self.highest, self.retention),
    {
        if self.highest >= self.retention {
            self.highest - self.retention
        } else {
            0
        }
    }

    /// Whether `session` lies in the current window.
    pub fn in_window(&self, session: SessionIndex) -> (r: bool)
        ensures
            r == in_window_spec(self.highest, self.retention, session),
    {
        self.floor() <= session && session <= self.highest
    }

    /// Moves the window up to `new_highest` and returns the new retention
    /// floor. A notification that does not exceed the highest session already
    /// seen is a duplicate: it is rejected as stale and changes nothing.
    pub fn advance(&mut self, new_highest: SessionIndex) -> (r: Result<SessionIndex, AdvanceError>)
        ensures
            new_highest > old(self).highest ==> {
                &&& final(self).highest == new_highest
                &&& final(self).retention == old(self).retention
                &&& r == Ok::<SessionIndex, AdvanceError>(
                    (floor_spec(new_highest, old(self).retention)) as SessionIndex,
                )
            },
            new_highest <= old(self).highest ==> {
                &&& *final(self) == *old(self)
                &&& r == Err::<SessionIndex, AdvanceError>(AdvanceError::StaleSession)
            },
    {
        if new_highest > self.highest {
            self.highest = new_highest;
            Ok(self.floor())
        } else {
            Err(AdvanceError::StaleSession)
        }
    }
}

} // verus!
