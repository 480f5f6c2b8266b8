//! The marker that closes the set of grammar policies.
use vstd::prelude::*;

verus! {

/// Implemented by the policy types of this crate only.
pub trait Seal {
}

} // verus!
