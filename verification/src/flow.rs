//! The session-flow layer: the two-step login exchange (start-login and
//! callback) and the handling of protected requests, as decisions on the
//! per-browser session state.
//!
//! A browser session is either anonymous (`user` is `None`) or
//! authenticated; between start-login and the callback it additionally
//! carries the transient flow state — the CSRF token and an optional
//! post-login redirect target — which is read once at the callback and
//! cleared on success and on failure alike.

use vstd::prelude::*;

use crate::backend::{
    config_urls_parse, spec_authenticate, Backend, Credentials, CredentialsView, embeds,
    google_provider, ProviderOutcome, ProviderOutcomeView,
};
use crate::store::StoreView;
use crate::user::{User, UserView};

verus! {

/// The value of an optional string.
pub open spec fn opt_view(o: Option<String>) -> Option<Seq<char>> {
    match o {
        Some(s) => Some(s@),
        None => None,
    }
}

/// Transient per-session state between start-login and the callback.
pub struct FlowState {
    /// The CSRF token issued at login start, compared at the callback.
    pub csrf_state: String,
    /// Where to redirect after a successful login.
    pub next_url: Option<String>,
}

/// The mathematical value of a [`FlowState`].
#[verifier::ext_equal]
pub struct FlowStateView {
    pub csrf_state: Seq<char>,
    pub next_url: Option<Seq<char>>,
}

impl View for FlowState {
    type V = FlowStateView;

    open spec fn view(&self) -> FlowStateView {
        FlowStateView { csrf_state: self.csrf_state@, next_url: opt_view(self.next_url) }
    }
}

/// The optional post-login redirect target, as extracted from the login
/// request's query string.
pub struct NextUrl {
    pub next: Option<String>,
}

/// What the provider's redirect hands the callback: the authorization code
/// and the returned CSRF state.
pub struct AuthzResp {
    pub code: String,
    pub state: String,
}

/// The mathematical value of an [`AuthzResp`].
#[verifier::ext_equal]
pub struct AuthzRespView {
    pub code: Seq<char>,
    pub state: Seq<char>,
}

impl View for AuthzResp {
    type V = AuthzRespView;

    open spec fn view(&self) -> AuthzRespView {
        AuthzRespView { code: self.code@, state: self.state@ }
    }
}

/// The per-browser session as the flow handlers see it.
pub struct SessionData {
    /// The authenticated principal, if any.
    pub user: Option<User>,
    /// The transient login-flow state, if a login is in progress.
    pub flow: Option<FlowState>,
}

/// The mathematical value of a [`SessionData`].
#[verifier::ext_equal]
pub struct SessionDataView {
    pub user: Option<UserView>,
    pub flow: Option<FlowStateView>,
}

impl View for SessionData {
    type V = SessionDataView;

    open spec fn view(&self) -> SessionDataView {
        SessionDataView {
            user: match self.user {
                Some(u) => Some(u@),
                None => None,
            },
            flow: match self.flow {
                Some(f) => Some(f@),
                None => None,
            },
        }
    }
}

impl SessionData {
    /// A fresh, anonymous session.
    pub fn new() -> (s: Self)
        ensures
            s@.user is None,
            s@.flow is None,
    {
        SessionData { user: None, flow: None }
    }
}

/// How the callback answers the browser.
pub enum CallbackOutcome {
    /// Successful login: redirect to the stored target or the default
    /// landing location.
    Redirect(String),
    /// No login flow was in progress in this session.
    BadRequest,
    /// The login attempt was rejected (CSRF mismatch or declined).
    Unauthorized,
    /// A hard failure of the provider or the store.
    ServerError,
}

/// The mathematical value of a [`CallbackOutcome`].
pub enum CallbackOutcomeView {
    Redirect(Seq<char>),
    BadRequest,
    Unauthorized,
    ServerError,
}

impl View for CallbackOutcome {
    type V = CallbackOutcomeView;

    open spec fn view(&self) -> CallbackOutcomeView {
        match self {
            CallbackOutcome::Redirect(s) => CallbackOutcomeView::Redirect(s@),
            CallbackOutcome::BadRequest => CallbackOutcomeView::BadRequest,
            CallbackOutcome::Unauthorized => CallbackOutcomeView::Unauthorized,
            CallbackOutcome::ServerError => CallbackOutcomeView::ServerError,
        }
    }
}

impl CallbackOutcome {
    /// The HTTP status the routing layer answers with: 302 for the
    /// redirect, 400 when no flow was in progress, 401 for a rejected
    /// attempt, 500 for a hard failure.
    pub fn status_code(&self) -> (r: u16)
        ensures
            r == match self@ {
                CallbackOutcomeView::Redirect(_) => 302u16,
                CallbackOutcomeView::BadRequest => 400u16,
                CallbackOutcomeView::Unauthorized => 401u16,
                CallbackOutcomeView::ServerError => 500u16,
            },
    {
        match self {
            CallbackOutcome::Redirect(_) => 302,
            CallbackOutcome::BadRequest => 400,
            CallbackOutcome::Unauthorized => 401,
            CallbackOutcome::ServerError => 500,
        }
    }
}

/// Where a successful login lands when no redirect target was stored.
pub open spec fn default_landing() -> Seq<char> {
    "/"@
}

/// What the callback does to the session, the store, and the browser.
pub open spec fn spec_handle_callback(
    sess: SessionDataView,
    store: StoreView,
    resp: AuthzRespView,
    outcome: ProviderOutcomeView,
) -> (SessionDataView, StoreView, CallbackOutcomeView) {
    match sess.flow {
        None => (sess, store, CallbackOutcomeView::BadRequest),
        Some(f) => {
            let creds = CredentialsView {
                provider: google_provider(),
                code: resp.code,
                old_state: f.csrf_state,
                new_state: resp.state,
            };
            let (store2, r) = spec_authenticate(store, creds, outcome);
            match r {
                Ok(Some(u)) => (
                    SessionDataView { user: Some(u), flow: None },
                    store2,
                    CallbackOutcomeView::Redirect(
                        match f.next_url {
                            Some(n) => n,
                            None => default_landing(),
                        },
                    ),
                ),
                Ok(None) => (
                    SessionDataView { flow: None, ..sess },
                    store2,
                    CallbackOutcomeView::Unauthorized,
                ),
                Err(_) => (
                    SessionDataView { flow: None, ..sess },
                    store2,
                    CallbackOutcomeView::ServerError,
                ),
            }
        },
    }
}

/// Start a login: build the authorization URL with a fresh CSRF token,
/// store the flow state in the session, and hand back the URL to redirect
/// to. Succeeds exactly when the backend's configured endpoint URLs parse;
/// otherwise the session is left unchanged.
pub fn handle_start_login(session: &mut SessionData, backend: &Backend, next: Option<String>) -> (r:
    Option<String>)
    ensures
        r is Some <==> config_urls_parse(backend.config),
        match r {
            None => final(session)@ == old(session)@,
            Some(url) => {
                &&& final(session)@.user == old(session)@.user
                &&& match final(session)@.flow {
                    Some(f) => embeds(url@, "state="@ + f.csrf_state) && embeds(url@, f.csrf_state)
                        && f.csrf_state.len() > 0 && f.next_url == opt_view(next),
                    None => false,
                }
            },
        },
{
    match backend.authorize_url() {
        None => None,
        Some((url, token)) => {
            session.flow = Some(FlowState { csrf_state: token, next_url: next });
            Some(url)
        },
    }
}

/// Handle the provider's redirect back: read the flow state (read-once: it
/// is cleared on every path), rebuild the credentials, authenticate, and on
/// success promote the session and consume the redirect target.
pub fn handle_callback(
    session: &mut SessionData,
    backend: &mut Backend,
    resp: AuthzResp,
    outcome: ProviderOutcome,
) -> (r: CallbackOutcome)
    requires
        old(backend).store.wf(),
        old(backend).store@.next_user_id < u64::MAX,
        old(backend).store@.next_link_id < u64::MAX,
    ensures
        final(backend).store.wf(),
        final(backend).config == old(backend).config,
        ({
            let (sess2, store2, out) = spec_handle_callback(
                old(session)@,
                old(backend).store@,
                resp@,
                outcome@,
            );
            &&& final(session)@ == sess2
            &&& final(backend).store@ == store2
            &&& r@ == out
        }),
{
    let mut flow_opt: Option<FlowState> = None;
    core::mem::swap(&mut session.flow, &mut flow_opt);
    match flow_opt {
        None => CallbackOutcome::BadRequest,
        Some(flow) => {
            let creds = Credentials {
                provider: "google".to_owned(),
                code: resp.code,
                old_state: flow.csrf_state,
                new_state: resp.state,
            };
            let result = backend.authenticate(&creds, outcome);
            match result {
                Ok(Some(user)) => {
                    session.user = Some(user);
                    match flow.next_url {
                        Some(n) => CallbackOutcome::Redirect(n),
                        None => CallbackOutcome::Redirect("/".to_owned()),
                    }
                },
                Ok(None) => CallbackOutcome::Unauthorized,
                Err(_) => CallbackOutcome::ServerError,
            }
        },
    }
}

/// The body a protected route answers with: the principal's email when the
/// session is authenticated, and the anonymous fallback otherwise —
/// anonymous access to protected content is a valid, non-erroring state.
pub fn handle_protected(session: &SessionData) -> (r: String)
    ensures
        match session@.user {
            Some(u) => r@ == u.email,
            None => r@ == "You're not logged in.\nVisit `/auth/google` to do so."@,
        },
{
    match &session.user {
        Some(user) => user.email.clone(),
        None => "You're not logged in.\nVisit `/auth/google` to do so.".to_owned(),
    }
}

/// What revalidation does to the session: an authenticated session survives
/// exactly when the reload returns a principal whose integrity secret still
/// equals the one captured at login; otherwise it is demoted to anonymous —
/// never a crash.
pub open spec fn spec_revalidate(sess: SessionDataView, store: StoreView) -> SessionDataView {
    match sess.user {
        None => sess,
        Some(u) => match crate::backend::spec_get_user(store, u.id) {
            Ok(Some(p)) => if p.access_token == u.access_token {
                SessionDataView { user: Some(p), ..sess }
            } else {
                SessionDataView { user: None, ..sess }
            },
            _ => SessionDataView { user: None, ..sess },
        },
    }
}

/// Revalidate an authenticated session on a protected request: reload the
/// principal by its id and check the session-integrity value (the access
/// token captured at login). On an unknown id, a reload failure, or an
/// integrity mismatch the session is demoted to anonymous.
pub fn revalidate_session(session: &mut SessionData, backend: &Backend)
    ensures
        final(session)@ == spec_revalidate(old(session)@, backend.store@),
{
    let user_id = match &session.user {
        None => {
            return ;
        },
        Some(u) => u.id(),
    };
    match backend.get_user(user_id) {
        Ok(Some(principal)) => {
            let keep = match &session.user {
                Some(u) => crate::user::check_session_integrity(&u.access_token, &principal),
                None => false,
            };
            if keep {
                session.user = Some(principal);
            } else {
                session.user = None;
            }
        },
        _ => {
            session.user = None;
        },
    }
}

} // verus!
