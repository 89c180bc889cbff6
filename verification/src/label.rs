//! Labels: what an item asks for, and when.

use crate::information::Information;
use crate::object::Object;
use crate::point::Point;
use std::fmt::Debug;
use vstd::prelude::*;

verus! {

/// What a label speaks of: a time to do by, to start after or to
/// repeat in, something that is needed, or what is to be done before or after.
#[derive(Clone, Copy, Debug, PartialEq, Eq, Structural)]
pub enum LabelKind {
    DoByHours,
    DoByDays,
    DoByWeeks,
    DoByMonths,
    DoByYears,
    StartsAfterHours,
    StartsAfterDays,
    StartsAfterWeeks,
    StartsAfterMonths,
    StartsAfterYears,
    RepeatsAfterHours,
    RepeatsAfterDays,
    RepeatsAfterWeeks,
    RepeatsAfterMonths,
    RepeatsAfterYears,
    RepeatsForHours,
    RepeatsForDays,
    RepeatsForWeeks,
    RepeatsForMonths,
    RepeatsForYears,
    RequiresPerson,
    RequiresLocation,
    RequiresObject,
    RequiresMoney,
    RequiresPhysicalEffort,
    RequiresMentalEffort,
    RequiresTime,
    RequiresSkill,
    DoBeforeFinishing,
    DoAfterFinishing,
}

impl LabelKind {
    /// The number of the kind, from 1 to 30.
    pub open spec fn number(self) -> int {
        match self {
            LabelKind::DoByHours => 1,
            LabelKind::DoByDays => 2,
            LabelKind::DoByWeeks => 3,
            LabelKind::DoByMonths => 4,
            LabelKind::DoByYears => 5,
            LabelKind::StartsAfterHours => 6,
            LabelKind::StartsAfterDays => 7,
            LabelKind::StartsAfterWeeks => 8,
            LabelKind::StartsAfterMonths => 9,
            LabelKind::StartsAfterYears => 10,
            LabelKind::RepeatsAfterHours => 11,
            LabelKind::RepeatsAfterDays => 12,
            LabelKind::RepeatsAfterWeeks => 13,
            LabelKind::RepeatsAfterMonths => 14,
            LabelKind::RepeatsAfterYears => 15,
            LabelKind::RepeatsForHours => 16,
            LabelKind::RepeatsForDays => 17,
            LabelKind::RepeatsForWeeks => 18,
            LabelKind::RepeatsForMonths => 19,
            LabelKind::RepeatsForYears => 20,
            LabelKind::RequiresPerson => 21,
            LabelKind::RequiresLocation => 22,
            LabelKind::RequiresObject => 23,
            LabelKind::RequiresMoney => 24,
            LabelKind::RequiresPhysicalEffort => 25,
            LabelKind::RequiresMentalEffort => 26,
            LabelKind::RequiresTime => 27,
            LabelKind::RequiresSkill => 28,
            LabelKind::DoBeforeFinishing => 29,
            LabelKind::DoAfterFinishing => 30,
        }
    }

    /// The number of the kind.
    pub fn value(&self) -> (n: u8)
        ensures
            n == self.number(),
    {
        match self {
            LabelKind::DoByHours => 1,
            LabelKind::DoByDays => 2,
            LabelKind::DoByWeeks => 3,
            LabelKind::DoByMonths => 4,
            LabelKind::DoByYears => 5,
            LabelKind::StartsAfterHours => 6,
            LabelKind::StartsAfterDays => 7,
            LabelKind::StartsAfterWeeks => 8,
            LabelKind::StartsAfterMonths => 9,
            LabelKind::StartsAfterYears => 10,
            LabelKind::RepeatsAfterHours => 11,
            LabelKind::RepeatsAfterDays => 12,
            LabelKind::RepeatsAfterWeeks => 13,
            LabelKind::RepeatsAfterMonths => 14,
            LabelKind::RepeatsAfterYears => 15,
            LabelKind::RepeatsForHours => 16,
            LabelKind::RepeatsForDays => 17,
            LabelKind::RepeatsForWeeks => 18,
            LabelKind::RepeatsForMonths => 19,
            LabelKind::RepeatsForYears => 20,
            LabelKind::RequiresPerson => 21,
            LabelKind::RequiresLocation => 22,
            LabelKind::RequiresObject => 23,
            LabelKind::RequiresMoney => 24,
            LabelKind::RequiresPhysicalEffort => 25,
            LabelKind::RequiresMentalEffort => 26,
            LabelKind::RequiresTime => 27,
            LabelKind::RequiresSkill => 28,
            LabelKind::DoBeforeFinishing => 29,
            LabelKind::DoAfterFinishing => 30,
        }
    }
}

/// A label: a value, and perhaps a kind, a description and the effort
/// it stands for.
pub trait Label: Object + Sized + Clone + Debug {
    fn kind(&self) -> Option<&LabelKind>;

    fn value(&self) -> &str;

    fn description(&self) -> Option<&str>;

    fn effort_point(&self) -> Option<&Point>;
}

/// What ties a label to something that was captured.
pub trait InformationLabelRelation<I, L>: Object + Sized + Clone + Debug where
    I: Information,
    L: Label,
 {
    fn information_id(&self) -> &I::Id;

    fn label_id(&self) -> &L::Id;
}

} // verus!
