//! Labels as they are kept, and what ties a label to what was captured.

use crate::information::Information;
use crate::label::{InformationLabelRelation, Label, LabelKind};
use crate::object::{lent, Object};
use crate::point::Point;
use uuid::Uuid;
use vstd::prelude::*;

verus! {

/// A label, as it is kept.
#[derive(Debug, Clone)]
pub struct LabelImpl {
    pub id: Uuid,
    pub kind: Option<LabelKind>,
    pub value: String,
    pub description: Option<String>,
    pub effort_point: Option<Point>,
}

impl Object for LabelImpl {
    type Id = Uuid;

    fn id(&self) -> (r: &Self::Id)
        ensures
            *r == self.id,
    {
        &self.id
    }
}

impl Label for LabelImpl {
    fn kind(&self) -> (r: Option<&LabelKind>)
        ensures
            lent(r, self.kind),
    {
        self.kind.as_ref()
    }

    fn value(&self) -> (r: &str)
        ensures
            r@ == self.value@,
    {
        self.value.as_str()
    }

    fn description(&self) -> (r: Option<&str>)
        ensures
            r is Some <==> self.description is Some,
            r matches Some(text) ==> text@ == self.description->0@,
    {
        match &self.description {
            Some(text) => Some(text.as_str()),
            None => None,
        }
    }

    fn effort_point(&self) -> (r: Option<&Point>)
        ensures
            lent(r, self.effort_point),
    {
        self.effort_point.as_ref()
    }
}

/// What ties one label to one thing that was captured.
#[derive(Debug, Clone)]
pub struct InformationLabelRelationImpl<I, L> where I: Information, L: Label {
    pub id: Uuid,
    pub information_id: I::Id,
    pub label_id: L::Id,
}

impl<I, L> Object for InformationLabelRelationImpl<I, L> where I: Information, L: Label {
    type Id = Uuid;

    fn id(&self) -> (r: &Self::Id)
        ensures
            *r == self.id,
    {
        &self.id
    }
}

impl<I, L> InformationLabelRelation<I, L> for InformationLabelRelationImpl<I, L> where
    I: Information,
    L: Label,
 {
    fn information_id(&self) -> (r: &I::Id)
        ensures
            *r == self.information_id,
    {
        &self.information_id
    }

    fn label_id(&self) -> (r: &L::Id)
        ensures
            *r == self.label_id,
    {
        &self.label_id
    }
}

} // verus!
