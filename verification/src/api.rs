//! Small response shapes of the service's read paths.

use vstd::prelude::*;

verus! {

/// A single-flag response: whether the requesting user is an administrator.
pub struct BoolResult {
    pub admin: bool,
}

} // verus!
