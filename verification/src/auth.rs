//! The claim carried by a caller-identity token.
//!
//! Token issuance and verification belong to the surrounding authentication
//! layer; the ledger only receives the already-verified user id this claim
//! holds.

use vstd::prelude::*;

verus! {

/// The authenticated identity a request acts as.
pub struct JWTClaim {
    pub user_id: i32,
}

impl JWTClaim {
    pub fn new(user_id: i32) -> (r: JWTClaim)
        ensures
            r.user_id == user_id,
    {
        JWTClaim { user_id }
    }

    /// The verified user id of the caller.
    pub fn id(&self) -> (r: i32)
        ensures
            r == self.user_id,
    {
        self.user_id
    }
}

} // verus!
