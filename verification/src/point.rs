//! A five-step scale.

use vstd::prelude::*;

verus! {

/// A point on the scale.
#[derive(Clone, Copy, Debug, PartialEq, Eq, Structural)]
pub enum Point {
    VeryLow,
    Low,
    Moderate,
    High,
    VeryHigh,
}

impl Point {
    /// The place of the point on the scale, from 1 for the lowest to 5 for
    /// the highest.
    pub open spec fn number(self) -> int {
        match self {
            Point::VeryLow => 1,
            Point::Low => 2,
            Point::Moderate => 3,
            Point::High => 4,
            Point::VeryHigh => 5,
        }
    }

    /// The place of the point on the scale.
    pub fn value(&self) -> (n: u8)
        ensures
            n == self.number(),
    {
        match self {
            Point::VeryLow => 1,
            Point::Low => 2,
            Point::Moderate => 3,
            Point::High => 4,
            Point::VeryHigh => 5,
        }
    }
}

} // verus!
