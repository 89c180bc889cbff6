//! The five steps from capturing something to engaging with it.

use crate::backend::horizon::HorizonPriorityImpl;
use crate::backend::information::InformationImpl;
use crate::backend::label::{InformationLabelRelationImpl, LabelImpl};
use vstd::prelude::*;

verus! {

/// The steps, in the order in which they follow one another.
#[derive(Clone, Copy, Debug, PartialEq, Eq, Structural)]
pub enum Step {
    /// Capture any information that comes your way
    Capture,
    /// Clarify the steps required and expected outcome
    Clarify,
    /// Assign labels to estimate the effort required
    Organize,
    /// Estimate how important it is to different horizons of focus
    Reflect,
    /// Based on the estimations and calculated priority, engage.
    Engage,
}

impl Default for Step {
    fn default() -> (r: Self)
        ensures
            r == Step::Capture,
    {
        Self::Capture
    }
}

impl Step {
    /// The step that follows; none after the last.
    pub open spec fn following(self) -> Option<Step> {
        match self {
            Step::Capture => Some(Step::Clarify),
            Step::Clarify => Some(Step::Organize),
            Step::Organize => Some(Step::Reflect),
            Step::Reflect => Some(Step::Engage),
            Step::Engage => None,
        }
    }

    /// The five steps as they are listed.
    pub open spec fn listed() -> Seq<Step> {
        seq![Step::Capture, Step::Clarify, Step::Reflect, Step::Organize, Step::Engage]
    }

    /// The five steps. The list names reflecting before organizing.
    pub fn all() -> (r: Vec<Step>)
        ensures
            r@ == Step::listed(),
    {
        let r = vec![Self::Capture, Self::Clarify, Self::Reflect, Self::Organize, Self::Engage];
        assert(r@ =~= Step::listed());
        r
    }

    /// The step that follows; none after the last.
    pub fn next(self) -> (r: Option<Self>)
        ensures
            r == self.following(),
    {
        match self {
            Self::Capture => Some(Self::Clarify),
            Self::Clarify => Some(Self::Organize),
            Self::Organize => Some(Self::Reflect),
            Self::Reflect => Some(Self::Engage),
            Self::Engage => None,
        }
    }
}

/// From any step, following on leads to the last step, in at most four
/// moves, and every step is listed.
pub proof fn lemma_steps_end(step: Step)
    ensures
        Step::listed().contains(step),
        ({
            let second = step.following();
            let third = if second is Some { second->0.following() } else { None };
            let fourth = if third is Some { third->0.following() } else { None };
            let fifth = if fourth is Some { fourth->0.following() } else { None };
            step == Step::Engage || second == Some(Step::Engage) || third == Some(Step::Engage)
                || fourth == Some(Step::Engage) || fifth == Some(Step::Engage)
        }),
{
    let all = Step::listed();
    assert(all[0] == Step::Capture && all[1] == Step::Clarify && all[2] == Step::Reflect && all[3]
        == Step::Organize && all[4] == Step::Engage);
}

/// The line that the user types into: its text, and where in it the cursor
/// stands.
#[derive(Clone, Debug)]
pub struct InputLine {
    pub value: String,
    pub cursor: usize,
}

impl Default for InputLine {
    fn default() -> (r: Self)
        ensures
            r.value@.len() == 0,
            r.cursor == 0,
    {
        InputLine { value: String::new(), cursor: 0 }
    }
}

/// What the screens work on.
pub struct State {
    pub current_step: Step,
    pub horizon_priority_list: Vec<HorizonPriorityImpl>,
    pub information_list: Vec<InformationImpl>,
    pub label_list: Vec<LabelImpl>,
    pub information_label_relation_list: Vec<
        InformationLabelRelationImpl<InformationImpl, LabelImpl>,
    >,
    pub input: Option<InputLine>,
}

impl Default for State {
    fn default() -> (r: Self)
        ensures
            r.current_step == Step::Capture,
            r.horizon_priority_list@.len() == 0,
            r.information_list@.len() == 0,
            r.label_list@.len() == 0,
            r.information_label_relation_list@.len() == 0,
            r.input is None,
    {
        State {
            current_step: Step::Capture,
            horizon_priority_list: Vec::new(),
            information_list: Vec::new(),
            label_list: Vec::new(),
            information_label_relation_list: Vec::new(),
            input: None,
        }
    }
}

} // verus!
