//! Where a mind is kept between one session and the next.

use crate::mind::Mind;
use vstd::prelude::*;

verus! {

/// A failure to read or write is `std::io::Error`. It is carried as it is.
#[verifier::external_type_specification]
#[verifier::external_body]
pub struct ExIoError(std::io::Error);

/// A place that gives a mind back as it was saved. How and where it keeps
/// the tasks and the reminders is its own affair, and so nothing is said
/// here of what it returns.
pub trait Storage {
    fn init() -> std::io::Result<Self> where Self: Sized;

    fn load(&self) -> std::io::Result<Mind>;

    fn save(&self, mind: Mind) -> std::io::Result<()>;
}

} // verus!
