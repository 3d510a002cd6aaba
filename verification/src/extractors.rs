//! The request-extraction data the authentication layer hands the core:
//! only plain values, never transport types.

use vstd::prelude::*;
use std::collections::HashSet;

verus! {

/// Where tokens are validated: the tenant domain and the audience claim
/// they must carry.
pub struct Auth0Config {
    pub audience: String,
    pub domain: String,
}

/// The claims of a validated token: the subject names the requesting user.
pub struct Claims {
    pub _permissions: Option<HashSet<String>>,
    pub sub: String,
}

impl Claims {
    /// Claims carrying the given subject and permission set.
    pub fn new(sub: String, permissions: Option<HashSet<String>>) -> (r: Self)
        ensures
            r.sub == sub,
            r._permissions == permissions,
    {
        Claims { _permissions: permissions, sub }
    }
}

} // verus!
