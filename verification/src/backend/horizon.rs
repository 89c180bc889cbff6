//! How much a horizon counts.

use crate::horizon::{Horizon, HorizonPriority};
use crate::object::{lent, Object};
use crate::point::Point;
use uuid::Uuid;
use vstd::prelude::*;

verus! {

/// How much one horizon counts, as it is kept.
#[derive(Debug, Clone)]
pub struct HorizonPriorityImpl {
    pub id: Uuid,
    pub horizon: Horizon,
    pub priority_point: Option<Point>,
}

impl Object for HorizonPriorityImpl {
    type Id = Uuid;

    fn id(&self) -> (r: &Self::Id)
        ensures
            *r == self.id,
    {
        &self.id
    }
}

impl HorizonPriority for HorizonPriorityImpl {
    fn horizon(&self) -> (r: &Horizon)
        ensures
            *r == self.horizon,
    {
        &self.horizon
    }

    fn priority_point(&self) -> (r: Option<&Point>)
        ensures
            lent(r, self.priority_point),
    {
        self.priority_point.as_ref()
    }
}

} // verus!
