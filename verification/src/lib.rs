//! Server core of an IndieAuth-style authorization-code grant: issuing
//! short-lived opaque codes bound to a client and redirect target, exchanging
//! such a code for a signed bearer token, and verifying presented tokens.
//!
//! HTTP plumbing, templating and session storage live outside this crate; the
//! functions here work on plain values handed in by such a front end.

use vstd::prelude::*;

pub mod auth;
pub mod login;
pub mod store;
pub mod strings;
pub mod token;

verus! {

/// The failure classes a request can end in.
///
/// `Unauthenticated` is handled by redirecting to the login flow and is never
/// surfaced as a hard error; the others map to 400/403/500-class responses.
#[derive(Clone, Copy, Debug, PartialEq, Eq, Structural)]
pub enum AuthError {
    /// No valid session; the caller should redirect to the login endpoint.
    Unauthenticated,
    /// The code is unknown, expired, evicted, or bound to other parameters.
    InvalidGrant,
    /// The Authorization header is missing or not of the form `Bearer <token>`.
    MalformedRequest,
    /// The token's signature or expiry check failed.
    InvalidToken,
    /// The shared store's lock could not be acquired.
    InternalFault,
}

} // verus!
