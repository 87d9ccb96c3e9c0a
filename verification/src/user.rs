//! The authenticated principal: the identity a session carries between
//! requests, reconstructed on every request from the stored identity id.

use vstd::prelude::*;

verus! {

/// An authenticated principal: identity id, email, and the provider access
/// token. Ephemeral; never persisted verbatim outside the session store.
///
/// The access token doubles as the session-integrity secret: rotating the
/// stored token invalidates every session signed with the old one.
pub struct User {
    pub id: u64,
    pub email: String,
    pub access_token: String,
}

/// The mathematical value of a [`User`].
#[verifier::ext_equal]
pub struct UserView {
    pub id: u64,
    pub email: Seq<char>,
    pub access_token: Seq<char>,
}

impl View for User {
    type V = UserView;

    open spec fn view(&self) -> UserView {
        UserView { id: self.id, email: self.email@, access_token: self.access_token@ }
    }
}

impl Clone for User {
    fn clone(&self) -> (r: Self)
        ensures
            r@ == self@,
    {
        User { id: self.id, email: self.email.clone(), access_token: self.access_token.clone() }
    }
}

impl User {
    /// The stable identifier of the underlying identity.
    pub fn id(&self) -> (r: u64)
        ensures
            r == self@.id,
    {
        self.id
    }

    /// The session-integrity secret: the access token captured at login time.
    /// A session whose stored value no longer equals this one is invalid.
    pub fn session_auth_hash(&self) -> (r: &String)
        ensures
            r@ == self@.access_token,
    {
        &self.access_token
    }
}

/// The session-integrity check: the value captured in the session at login
/// time must equal the integrity secret of the freshly reloaded principal.
pub fn check_session_integrity(stored: &String, principal: &User) -> (r: bool)
    ensures
        r == (stored@ == principal@.access_token),
{
    *stored == principal.access_token
}

} // verus!
