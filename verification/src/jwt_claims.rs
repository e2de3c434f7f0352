//! Claim payloads of the two signed token kinds.

use vstd::prelude::*;

verus! {

/// Claims of the short-lived challenge token: proof that `email` asked to
/// log in, valid from `iat` until `exp`.
#[derive(Debug, PartialEq, Clone)]
pub struct EmailAuthStartJwt {
    pub email: String,
    pub iat: i64,
    pub exp: i64,
}

/// Claims of the session token: proof that `email` completed a login at
/// `signin_date`, valid from `iat` until `exp`. `signin_date` is fixed at
/// the first issuance and carried through refreshes.
#[derive(Debug, PartialEq, Clone)]
pub struct AuthJwt {
    pub email: String,
    pub signin_date: i64,
    pub iat: i64,
    pub exp: i64,
}

} // verus!
