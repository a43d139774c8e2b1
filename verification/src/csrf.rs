//! Anti-forgery state tokens for the login flow.
//!
//! A token is minted when a login starts, carried to the identity provider
//! as the `state` parameter, and must come back unchanged before the
//! callback is allowed to proceed.

use vstd::prelude::*;

use crate::byteops::bytes_eq;

verus! {

/// Relies on `oauth2::CsrfToken::new_random`: a freshly drawn random
/// token, the base64 text of 128 random bits, so a short non-empty byte
/// string. Nothing can be promised about its value.
#[verifier::external_body]
pub(crate) fn mint() -> (r: Vec<u8>)
    ensures
        0 < r@.len() <= 64,
{
    oauth2::CsrfToken::new_random().secret().clone().into_bytes()
}

/// Compares the token stored for a login attempt with the one a callback
/// carried. True exactly when the two are identical byte strings.
///
/// The comparison reads every position of both tokens whatever their
/// contents, so its timing does not reveal where a forgery diverges.
pub fn verify(expected: &[u8], received: &[u8]) -> (r: bool)
    ensures
        r == (expected@ == received@),
{
    bytes_eq(expected, received)
}

} // verus!
