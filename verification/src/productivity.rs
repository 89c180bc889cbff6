//! How well things are going, judged by how long the tasks have waited.

use crate::time::{Span, NANOS_PER_SECOND, SECONDS_PER_HOUR};
use vstd::prelude::*;

verus! {

/// The nanoseconds of `n` hours.
pub open spec fn hours(n: int) -> int {
    n * SECONDS_PER_HOUR * NANOS_PER_SECOND
}

/// The five grades, from the best to the worst.
#[derive(Clone, Copy, Debug, PartialEq, Eq, Structural)]
pub enum Productivity {
    Optimal,
    High,
    Normal,
    Low,
    UnProductive,
}

impl Productivity {
    /// The grade for a backlog of `backlog` nanoseconds: up to half a day is
    /// optimal, up to a day high, up to three days normal, up to a week low.
    pub open spec fn of(backlog: int) -> Productivity {
        if backlog <= hours(12) {
            Productivity::Optimal
        } else if backlog <= hours(24) {
            Productivity::High
        } else if backlog <= hours(72) {
            Productivity::Normal
        } else if backlog <= hours(168) {
            Productivity::Low
        } else {
            Productivity::UnProductive
        }
    }

    /// The place of the grade: 0 for the best, 4 for the worst.
    pub open spec fn rank(self) -> int {
        match self {
            Productivity::Optimal => 0,
            Productivity::High => 1,
            Productivity::Normal => 2,
            Productivity::Low => 3,
            Productivity::UnProductive => 4,
        }
    }

    /// The grade for `backlog`.
    pub fn from_backlog(backlog: Span) -> (r: Self)
        ensures
            r == Productivity::of(backlog@),
    {
        if backlog.at_most(&Span::hours(12)) {
            Productivity::Optimal
        } else if backlog.at_most(&Span::hours(24)) {
            Productivity::High
        } else if backlog.at_most(&Span::hours(72)) {
            Productivity::Normal
        } else if backlog.at_most(&Span::hours(168)) {
            Productivity::Low
        } else {
            Productivity::UnProductive
        }
    }
}

/// A longer backlog never earns a better grade.
pub proof fn lemma_grade_is_monotonic(shorter: int, longer: int)
    requires
        shorter <= longer,
    ensures
        Productivity::of(shorter).rank() <= Productivity::of(longer).rank(),
{
}

} // verus!
