//! What was captured, and what became of it on the way to being done.

use crate::object::Object;
use crate::point::Point;
use crate::time::Timestamp;
use std::fmt::Debug;
use vstd::prelude::*;

verus! {

/// Something that was captured, seen through the five steps.
pub trait Information: Object + Sized + Clone + Debug {
    // Capture: Capture any information that comes your way
    fn title(&self) -> &str;

    fn body(&self) -> Option<&str>;

    fn captured_at(&self) -> &Timestamp;

    // Clarify: Clarify the steps required and expected outcome
    fn outcome(&self) -> Option<&str>;

    fn steps(&self) -> &[String];

    fn clarified_at(&self) -> Option<&Timestamp>;

    // Organize: Assign labels to estimate the effort required
    fn organized_at(&self) -> Option<&Timestamp>;

    // Reflect: Estimate how important it is to different horizons of focus
    fn life_importance(&self) -> Option<&Point>;

    fn longterm_vision_importance(&self) -> Option<&Point>;

    fn yearly_goals_importance(&self) -> Option<&Point>;

    fn accountabilities_importance(&self) -> Option<&Point>;

    fn current_projects_importance(&self) -> Option<&Point>;

    fn current_actions_importance(&self) -> Option<&Point>;

    fn reflected_at(&self) -> Option<&Timestamp>;

    // Engage: Based on the estimations and calculated priority, engage.
    fn calculated_priority(&self) -> Option<i32>;

    fn steps_done(&self) -> &[String];

    fn last_step_done_at(&self) -> Option<&Timestamp>;

    fn finished_at(&self) -> Option<&Timestamp>;

    fn archived_at(&self) -> Option<&Timestamp>;
}

} // verus!
