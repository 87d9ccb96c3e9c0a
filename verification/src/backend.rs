//! The authentication backend: a stateless façade over the identity store
//! and the provider client, with the two entry points of the login flow —
//! `authenticate` for the callback and `get_user` to rehydrate a principal.
//!
//! The network is not crossed here. Building the authorization URL is a pure
//! computation delegated to the OAuth2 client library; the token exchange
//! and the profile fetch are performed by the caller, which hands their
//! outcome in as a [`ProviderOutcome`] value. `authenticate` is verified for
//! every such outcome.

use vstd::prelude::*;

use oauth2::basic::BasicClient;
use oauth2::{AuthUrl, ClientId, ClientSecret, CsrfToken, RedirectUrl, TokenUrl};

use crate::error::BackendError;
use crate::profile::{GoogleRes, GoogleResView, UserProfile};
use crate::store::{
    lemma_upsert_identity_wf, lemma_upsert_provider_link_wf, spec_upsert_identity,
    spec_upsert_provider_link, spec_load_identity_with_link, MemStore, StoreView,
};
use crate::user::{User, UserView};

verus! {

/// Static configuration of the provider client: endpoints and client
/// credentials, constructed once at process start and never read from the
/// environment inside request handling.
pub struct ProviderConfig {
    pub client_id: String,
    pub client_secret: String,
    /// Authorization endpoint; may already carry the requested scopes.
    pub auth_url: String,
    /// Token endpoint.
    pub token_url: String,
    /// Where the provider redirects back to.
    pub redirect_url: String,
}

/// What the callback hands to `authenticate`: the authorization code and
/// the two CSRF states — the one read back from the session and the one the
/// provider returned.
pub struct Credentials {
    pub provider: String,
    pub code: String,
    pub old_state: String,
    pub new_state: String,
}

/// The mathematical value of [`Credentials`].
pub struct CredentialsView {
    pub provider: Seq<char>,
    pub code: Seq<char>,
    pub old_state: Seq<char>,
    pub new_state: Seq<char>,
}

impl View for Credentials {
    type V = CredentialsView;

    open spec fn view(&self) -> CredentialsView {
        CredentialsView {
            provider: self.provider@,
            code: self.code@,
            old_state: self.old_state@,
            new_state: self.new_state@,
        }
    }
}

/// What came back from the provider for one login attempt: a token and a
/// profile, or a hard failure of one of the two calls.
pub enum ProviderOutcome {
    /// Both calls succeeded.
    Success(GoogleRes),
    /// The code-for-token exchange failed (network, rejection, malformed
    /// response).
    ExchangeFailed,
    /// The user-info call failed (network or malformed profile).
    ProfileFailed,
}

/// The mathematical value of a [`ProviderOutcome`].
pub enum ProviderOutcomeView {
    Success(GoogleResView),
    ExchangeFailed,
    ProfileFailed,
}

impl View for ProviderOutcome {
    type V = ProviderOutcomeView;

    open spec fn view(&self) -> ProviderOutcomeView {
        match self {
            ProviderOutcome::Success(g) => ProviderOutcomeView::Success(g@),
            ProviderOutcome::ExchangeFailed => ProviderOutcomeView::ExchangeFailed,
            ProviderOutcome::ProfileFailed => ProviderOutcomeView::ProfileFailed,
        }
    }
}

/// The provider name every link written by this backend carries.
pub open spec fn google_provider() -> Seq<char> {
    "google"@
}

/// Whether this text parses as a URL: the success of `url::Url::parse`,
/// which depends on the text alone. The oauth2 endpoint constructors
/// (`AuthUrl::new`, `TokenUrl::new`, `RedirectUrl::new`) accept exactly the
/// texts that parse.
pub uninterp spec fn url_parses(s: Seq<char>) -> bool;

/// All three endpoint URLs of a configuration parse, so building the
/// authorization URL from it is owed to succeed.
pub open spec fn config_urls_parse(config: ProviderConfig) -> bool {
    &&& url_parses(config.auth_url@)
    &&& url_parses(config.token_url@)
    &&& url_parses(config.redirect_url@)
}

/// `needle` occurs verbatim somewhere in `hay`.
pub open spec fn embeds(hay: Seq<char>, needle: Seq<char>) -> bool {
    exists|i: int|
        0 <= i && i + needle.len() <= hay.len() && #[trigger] hay.subrange(
            i,
            i + needle.len() as int,
        ) == needle
}

/// Exact secret-value comparison of two CSRF state tokens.
pub fn csrf_states_match(old_state: &String, new_state: &String) -> (r: bool)
    ensures
        r == (old_state@ == new_state@),
{
    *old_state == *new_state
}

/// The CSRF gate of the callback: hands the driver the authorization code
/// to exchange, and hands it nothing when the states differ — so a mismatch
/// causes zero calls to the provider and zero calls to the store.
pub fn begin_authenticate(creds: &Credentials) -> (r: Option<&String>)
    ensures
        r is None <==> creds@.old_state != creds@.new_state,
        r matches Some(c) ==> c@ == creds@.code,
{
    if csrf_states_match(&creds.old_state, &creds.new_state) {
        Some(&creds.code)
    } else {
        None
    }
}

/// The value of an `authenticate` / `get_user` result.
pub open spec fn auth_result_view(r: Result<Option<User>, BackendError>) -> Result<
    Option<UserView>,
    BackendError,
> {
    match r {
        Ok(None) => Ok(None),
        Ok(Some(u)) => Ok(Some(u@)),
        Err(e) => Err(e),
    }
}

/// What `authenticate` does, as one transition of the store: the CSRF
/// mismatch is a soft rejection that touches nothing; a provider failure is
/// a hard error that touches nothing; on success the identity is upserted,
/// then its provider link, and the principal is built from the stored row
/// and the fresh access token.
pub open spec fn spec_authenticate(
    s: StoreView,
    creds: CredentialsView,
    outcome: ProviderOutcomeView,
) -> (StoreView, Result<Option<UserView>, BackendError>) {
    if creds.old_state != creds.new_state {
        (s, Ok(None))
    } else {
        match outcome {
            ProviderOutcomeView::ExchangeFailed => (s, Err(BackendError::ProviderExchange)),
            ProviderOutcomeView::ProfileFailed => (s, Err(BackendError::ProviderProfile)),
            ProviderOutcomeView::Success(g) => {
                let (s1, row) = spec_upsert_identity(s, g.profile);
                let s2 = spec_upsert_provider_link(
                    s1,
                    google_provider(),
                    g.profile.sub,
                    row.id,
                    g.access_token,
                );
                (
                    s2,
                    Ok(
                        Some(
                            UserView {
                                id: row.id,
                                email: row.email,
                                access_token: g.access_token,
                            },
                        ),
                    ),
                )
            },
        }
    }
}

/// What `get_user` returns: `Ok(None)` for an unknown id, a hard
/// `SessionIntegrity` error for an identity without a provider link, and
/// otherwise the principal rebuilt from the stored row and its first link.
pub open spec fn spec_get_user(s: StoreView, user_id: u64) -> Result<
    Option<UserView>,
    BackendError,
> {
    match spec_load_identity_with_link(s, user_id) {
        None => Ok(None),
        Some((u, None)) => Err(BackendError::SessionIntegrity),
        Some((u, Some(l))) => Ok(
            Some(UserView { id: u.id, email: u.email, access_token: l.access_token }),
        ),
    }
}

/// The authentication backend. It owns no mutable state beyond the store
/// handle and the provider configuration given at construction.
pub struct Backend {
    pub config: ProviderConfig,
    pub store: MemStore,
}

/// Relies on `oauth2::basic::BasicClient::new` + `set_redirect_uri` to build
/// the client, and on `Client::authorize_url(CsrfToken::new_random)` +
/// `AuthorizationRequest::url` for the result: the URL is the authorization
/// endpoint with `response_type`, `client_id`, `state` and `redirect_uri`
/// appended as query pairs, the state pair holding the fresh token. The
/// token is base64url text, which the query serializer keeps unchanged, so
/// `state=` followed by the token occurs verbatim in the URL; the token
/// encodes 16 random bytes, so it is not empty. The three endpoint
/// constructors (`AuthUrl::new`, `TokenUrl::new`, `RedirectUrl::new`)
/// succeed exactly when `url::Url::parse` accepts their text — the
/// `url_parses` name — and nothing after them can fail, so `None` comes
/// exactly when one of the three configured URLs does not parse.
#[verifier::external_body]
fn oauth_authorize_url(config: &ProviderConfig) -> (r: Option<(String, String)>)
    ensures
        r is Some <==> (url_parses(config.auth_url@) && url_parses(config.token_url@)
            && url_parses(config.redirect_url@)),
        r matches Some(p) ==> embeds(p.0@, "state="@ + p.1@) && embeds(p.0@, p.1@) && p.1@.len()
            > 0,
{
    let urls = (
        AuthUrl::new(config.auth_url.clone()),
        TokenUrl::new(config.token_url.clone()),
        RedirectUrl::new(config.redirect_url.clone()),
    );
    let (Ok(auth_url), Ok(token_url), Ok(redirect_url)) = urls else { return None };
    let client = BasicClient::new(
        ClientId::new(config.client_id.clone()),
        Some(ClientSecret::new(config.client_secret.clone())),
        auth_url,
        Some(token_url),
    ).set_redirect_uri(redirect_url);
    let (url, token) = client.authorize_url(CsrfToken::new_random).url();
    Some((url.to_string(), token.secret().clone()))
}

impl Backend {
    pub fn new(config: ProviderConfig, store: MemStore) -> (b: Self)
        ensures
            b.config == config,
            b.store == store,
    {
        Backend { config, store }
    }

    /// Build the authorization URL with a fresh anti-forgery token and
    /// return both. The token is embedded verbatim in the URL, as the
    /// `state` query pair. Succeeds exactly when the three configured
    /// endpoint URLs parse.
    pub fn authorize_url(&self) -> (r: Option<(String, String)>)
        ensures
            r is Some <==> config_urls_parse(self.config),
            r matches Some(p) ==> embeds(p.0@, "state="@ + p.1@) && embeds(p.0@, p.1@)
                && p.1@.len() > 0,
    {
        oauth_authorize_url(&self.config)
    }

    /// Authenticate one callback: compare the CSRF states, and on a match
    /// fold the provider's outcome into the store. A mismatch is `Ok(None)`
    /// — a rejected attempt, not a failure — and leaves the store untouched,
    /// as does a provider failure.
    pub fn authenticate(&mut self, creds: &Credentials, outcome: ProviderOutcome) -> (r: Result<
        Option<User>,
        BackendError,
    >)
        requires
            old(self).store.wf(),
            old(self).store@.next_user_id < u64::MAX,
            old(self).store@.next_link_id < u64::MAX,
        ensures
            final(self).store.wf(),
            final(self).config == old(self).config,
            final(self).store@ == spec_authenticate(old(self).store@, creds@, outcome@).0,
            auth_result_view(r) == spec_authenticate(old(self).store@, creds@, outcome@).1,
    {
        if !csrf_states_match(&creds.old_state, &creds.new_state) {
            return Ok(None);
        }
        match outcome {
            ProviderOutcome::ExchangeFailed => Err(BackendError::ProviderExchange),
            ProviderOutcome::ProfileFailed => Err(BackendError::ProviderProfile),
            ProviderOutcome::Success(g) => {
                proof {
                    lemma_upsert_identity_wf(self.store@, g.profile@);
                }
                let row = self.store.upsert_identity(&g.profile);
                let provider = "google".to_owned();
                self.store.upsert_provider_link(
                    provider,
                    g.profile.sub.clone(),
                    row.id,
                    g.access_token.clone(),
                );
                Ok(Some(User { id: row.id, email: row.email, access_token: g.access_token }))
            },
        }
    }

    /// Rehydrate the principal stored under this identity id. `Ok(None)`
    /// when the id is unknown; a hard `SessionIntegrity` error when the
    /// identity exists but carries no provider link (a corrupted record,
    /// distinct from "not logged in").
    pub fn get_user(&self, user_id: u64) -> (r: Result<Option<User>, BackendError>)
        ensures
            auth_result_view(r) == spec_get_user(self.store@, user_id),
    {
        match self.store.load_identity_with_link(user_id) {
            None => Ok(None),
            Some((u, None)) => Err(BackendError::SessionIntegrity),
            Some((u, Some(link))) => Ok(
                Some(User { id: u.id, email: u.email, access_token: link.access_token }),
            ),
        }
    }
}

} // verus!
