//! Identity claims as the boundary layer hands them to the core.
//!
//! Authentication itself (token issuance and verification, password
//! hashing) happens outside this crate; the core only receives a resolved
//! user id together with the role the boundary established for it.

use vstd::prelude::*;

verus! {

/// The role a resolved identity holds.
#[derive(Clone, Copy, Debug, PartialEq, Eq, Structural)]
pub enum UserRole {
    Admin,
    Customer,
}

/// The claims the boundary layer resolved for a request: who the caller is
/// and which role they hold. The core trusts both values.
#[derive(Clone, Copy, Debug, PartialEq, Eq, Structural)]
pub struct TokenClaims {
    pub user_id: u64,
    pub role: UserRole,
}

impl TokenClaims {
    pub fn is_admin(&self) -> (r: bool)
        ensures
            r == (self.role is Admin),
    {
        matches!(self.role, UserRole::Admin)
    }

    pub fn is_customer(&self) -> (r: bool)
        ensures
            r == (self.role is Customer),
    {
        matches!(self.role, UserRole::Customer)
    }
}

} // verus!
