//! The six horizons of focus, from the purpose of a life down to the
//! actions of the day.

use crate::object::Object;
use crate::point::Point;
use std::fmt::Debug;
use vstd::prelude::*;

verus! {

/// A horizon of focus.
#[derive(Clone, Copy, Debug, PartialEq, Eq, Structural)]
pub enum Horizon {
    /// Life purpose and values
    Life,
    /// Long-term visions
    LongTermVision,
    /// 1-2 year goals
    YearlyGoals,
    /// Areas of focus and accountability
    Accountabilities,
    /// Current projects
    CurrentProjects,
    /// Current actions
    CurrentActions,
}

impl Horizon {
    /// The place of the horizon, from 1 for the widest to 6 for the
    /// nearest.
    pub open spec fn number(self) -> int {
        match self {
            Horizon::Life => 1,
            Horizon::LongTermVision => 2,
            Horizon::YearlyGoals => 3,
            Horizon::Accountabilities => 4,
            Horizon::CurrentProjects => 5,
            Horizon::CurrentActions => 6,
        }
    }

    /// The horizon at place `n`, if there is one.
    pub open spec fn numbered(n: int) -> Option<Horizon> {
        if n == 1 {
            Some(Horizon::Life)
        } else if n == 2 {
            Some(Horizon::LongTermVision)
        } else if n == 3 {
            Some(Horizon::YearlyGoals)
        } else if n == 4 {
            Some(Horizon::Accountabilities)
        } else if n == 5 {
            Some(Horizon::CurrentProjects)
        } else if n == 6 {
            Some(Horizon::CurrentActions)
        } else {
            None
        }
    }

    /// The place of the horizon.
    pub fn value(&self) -> (n: u8)
        ensures
            n == self.number(),
    {
        match self {
            Horizon::Life => 1,
            Horizon::LongTermVision => 2,
            Horizon::YearlyGoals => 3,
            Horizon::Accountabilities => 4,
            Horizon::CurrentProjects => 5,
            Horizon::CurrentActions => 6,
        }
    }

    /// The six horizons, from the widest to the nearest.
    pub fn all() -> (r: Vec<Self>)
        ensures
            r@.len() == 6,
            forall|i: int| 0 <= i < 6 ==> Horizon::numbered(i + 1) == Some(#[trigger] r@[i]),
    {
        vec![
            Self::Life,
            Self::LongTermVision,
            Self::YearlyGoals,
            Self::Accountabilities,
            Self::CurrentProjects,
            Self::CurrentActions,
        ]
    }

    /// The next wider horizon; none beyond the widest.
    pub fn zoom_out(&self) -> (r: Option<Self>)
        ensures
            r == Horizon::numbered(self.number() - 1),
    {
        match self {
            Self::Life => None,
            Self::LongTermVision => Some(Self::Life),
            Self::YearlyGoals => Some(Self::LongTermVision),
            Self::Accountabilities => Some(Self::YearlyGoals),
            Self::CurrentProjects => Some(Self::Accountabilities),
            Self::CurrentActions => Some(Self::CurrentProjects),
        }
    }

    /// The next nearer horizon; none beyond the nearest.
    pub fn zoom_in(&self) -> (r: Option<Self>)
        ensures
            r == Horizon::numbered(self.number() + 1),
    {
        match self {
            Self::Life => Some(Self::LongTermVision),
            Self::LongTermVision => Some(Self::YearlyGoals),
            Self::YearlyGoals => Some(Self::Accountabilities),
            Self::Accountabilities => Some(Self::CurrentProjects),
            Self::CurrentProjects => Some(Self::CurrentActions),
            Self::CurrentActions => None,
        }
    }
}

/// Every horizon has its place, and one step out and one step in lead back
/// to where they began.
pub proof fn lemma_zoom_there_and_back(h: Horizon)
    ensures
        Horizon::numbered(h.number()) == Some(h),
        Horizon::numbered(h.number() - 1) matches Some(wider) ==> Horizon::numbered(
            wider.number() + 1,
        ) == Some(h),
        Horizon::numbered(h.number() + 1) matches Some(nearer) ==> Horizon::numbered(
            nearer.number() - 1,
        ) == Some(h),
{
}

/// What says how much a horizon counts.
pub trait HorizonPriority: Object + Sized + Clone + Debug {
    fn horizon(&self) -> &Horizon;

    fn priority_point(&self) -> Option<&Point>;
}

} // verus!
