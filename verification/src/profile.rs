//! The data the identity provider hands back for one login: the profile
//! fields of the user-info endpoint and the access token of the code
//! exchange.

use vstd::prelude::*;

verus! {

/// The profile returned by the provider's user-info endpoint.
///
/// All six fields are required; a payload missing one of them is a
/// `ProviderProfile` failure at the boundary and never reaches this type.
pub struct UserProfile {
    pub email: String,
    pub email_verified: bool,
    pub given_name: String,
    pub family_name: String,
    /// The provider-assigned subject identifier, stable per provider account.
    pub sub: String,
    /// Avatar URL.
    pub picture: String,
}

/// The mathematical value of a [`UserProfile`].
pub struct UserProfileView {
    pub email: Seq<char>,
    pub email_verified: bool,
    pub given_name: Seq<char>,
    pub family_name: Seq<char>,
    pub sub: Seq<char>,
    pub picture: Seq<char>,
}

impl View for UserProfile {
    type V = UserProfileView;

    open spec fn view(&self) -> UserProfileView {
        UserProfileView {
            email: self.email@,
            email_verified: self.email_verified,
            given_name: self.given_name@,
            family_name: self.family_name@,
            sub: self.sub@,
            picture: self.picture@,
        }
    }
}

/// A successful pass through the provider: the access token obtained by the
/// code exchange together with the profile fetched with that token.
pub struct GoogleRes {
    pub access_token: String,
    pub profile: UserProfile,
}

/// The mathematical value of a [`GoogleRes`].
pub struct GoogleResView {
    pub access_token: Seq<char>,
    pub profile: UserProfileView,
}

impl View for GoogleRes {
    type V = GoogleResView;

    open spec fn view(&self) -> GoogleResView {
        GoogleResView { access_token: self.access_token@, profile: self.profile@ }
    }
}

} // verus!
