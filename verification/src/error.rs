//! The error taxonomy of the authentication backend.
//!
//! A CSRF mismatch is deliberately *not* an error: it is a rejected login
//! attempt, reported as `Ok(None)` by the backend. The variants here are the
//! hard failures: the two provider-boundary failures, a persistence failure,
//! and a session-integrity violation detected while reloading a principal.

use vstd::prelude::*;

verus! {

/// A hard failure of the authentication backend.
#[derive(Clone, Copy, Debug, PartialEq, Eq, Structural)]
pub enum BackendError {
    /// The authorization-code-for-token exchange failed: network failure,
    /// provider-side rejection, or a malformed response.
    ProviderExchange,
    /// The user-info call failed: network failure or a malformed or
    /// incomplete profile payload.
    ProviderProfile,
    /// The persistent store failed (connection or constraint failure).
    Store,
    /// An identity row exists but its provider link is missing, or the
    /// session's integrity value no longer matches the stored access token:
    /// a corrupted or revoked session, surfaced distinctly from "not logged
    /// in".
    SessionIntegrity,
}

} // verus!
