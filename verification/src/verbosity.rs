//! How much of a run is printed.

use vstd::prelude::*;

verus! {

/// The level of detail that was asked for: 0 prints the final summary only,
/// 1 adds a line of progress for every report, 2 adds the details of every
/// query.
#[derive(Clone, Copy, Debug)]
pub struct Verbosity {
    level: u32,
}

impl View for Verbosity {
    type V = u32;

    closed spec fn view(&self) -> u32 {
        self.level
    }
}

impl Verbosity {
    /// The verbosity of the given level.
    pub fn new(level: u32) -> (v: Verbosity)
        ensures
            v@ == level,
    {
        Verbosity { level }
    }

    /// Tells whether a line of progress is printed for every report.
    pub fn progress(&self) -> (shown: bool)
        ensures
            shown == (self@ >= 1),
    {
        self.level >= 1
    }

    /// Tells whether the details of every query are printed: the name that
    /// was picked, and what a reply held.
    pub fn detail(&self) -> (shown: bool)
        ensures
            shown == (self@ >= 2),
    {
        self.level >= 2
    }
}

} // verus!
