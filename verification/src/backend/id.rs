//! The ids of the records.

use vstd::prelude::*;

verus! {

/// The id of a record is uuid's `Uuid`. It is carried as it is: nothing here
/// looks inside one.
#[verifier::external_type_specification]
#[verifier::external_body]
pub struct ExUuid(uuid::Uuid);

/// uuid's `Uuid::new_v4` draws a fresh id at random. Nothing is claimed of
/// the id that it returns.
pub assume_specification[ uuid::Uuid::new_v4 ]() -> (id: uuid::Uuid)
;

/// `Uuid` derives `Clone` and is `Copy`: the clone of an id is that id.
pub assume_specification[ <uuid::Uuid as Clone>::clone ](id: &uuid::Uuid) -> (r: uuid::Uuid)
    ensures
        r == *id,
;

} // verus!
