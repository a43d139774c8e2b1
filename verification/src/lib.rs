//! Server-side authentication via an external identity provider.
//!
//! The crate models the pieces a login flow is made of — a session payload
//! codec, an expiring session store, a CSRF state guard, a user registry,
//! and the request-scoped facade that ties them together — and proves their
//! contracts. Network and storage I/O stay outside; the verified core takes
//! the results of those calls as plain values.

use vstd::prelude::*;

pub mod byteops;
pub mod codec;
pub mod csrf;
pub mod flow;
pub mod oauth;
pub mod session;
pub mod store;
pub mod users;

verus! {

/// The display name of the signed-in user, as the rest of the application
/// consumes it to gate administrator-only operations.
#[derive(Debug, Clone, Eq, PartialEq)]
pub struct Username(pub String);

/// The one authorization decision downstream consumers make: the
/// signed-in user may act in the administrator area exactly when their
/// display name equals the configured administrator's. Anyone else —
/// and any request without a signed-in user — is turned away.
pub fn with_admin_access(current: Option<Username>, admin_name: &String) -> (r: Option<Username>)
    ensures
        r == (match current {
            Some(u) => if u.0@ == admin_name@ {
                Some(u)
            } else {
                None::<Username>
            },
            None => None::<Username>,
        }),
{
    match current {
        Some(u) => {
            if u.0 == *admin_name {
                Some(u)
            } else {
                None
            }
        },
        None => None,
    }
}

} // verus!
