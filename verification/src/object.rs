//! Things that can be told apart by an id.

use std::fmt::Debug;
use vstd::prelude::*;

verus! {

/// Whether `lent` is what `owned` holds, borrowed.
pub open spec fn lent<T>(lent: Option<&T>, owned: Option<T>) -> bool {
    match (lent, owned) {
        (Some(a), Some(b)) => *a == b,
        (None, None) => true,
        _ => false,
    }
}

/// Something with an id.
pub trait Object: Sized + Clone + Debug {
    type Id: Sized + Clone + Debug;

    fn id(&self) -> &Self::Id;
}

} // verus!
