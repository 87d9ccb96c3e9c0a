//! Tests of the session-flow layer: the two-step login exchange, the
//! read-once flow state, the HTTP status mapping, and session revalidation.

use auth_core::backend::{Backend, ProviderConfig, ProviderOutcome};
use auth_core::flow::{
    handle_callback, handle_protected, handle_start_login, revalidate_session, AuthzResp,
    CallbackOutcome, SessionData,
};
use auth_core::profile::{GoogleRes, UserProfile};
use auth_core::store::MemStore;
use auth_core::user::check_session_integrity;

fn test_backend() -> Backend {
    Backend::new(
        ProviderConfig {
            client_id: String::from("client-id-123"),
            client_secret: String::from("client-secret-456"),
            auth_url: String::from(
                "https://accounts.example.com/o/oauth2/v2/auth?scope=openid%20profile%20email",
            ),
            token_url: String::from("https://oauth2.example.com/token"),
            redirect_url: String::from("https://localhost:3000/auth/google_callback"),
        },
        MemStore::new(),
    )
}

fn success(token: &str) -> ProviderOutcome {
    ProviderOutcome::Success(GoogleRes {
        access_token: String::from(token),
        profile: UserProfile {
            email: String::from("a@x.com"),
            email_verified: true,
            given_name: String::from("A"),
            family_name: String::from("X"),
            sub: String::from("g-1"),
            picture: String::from("http://pics.example.com/a.png"),
        },
    })
}

#[test]
fn start_login_stores_flow_state_and_embeds_the_token() {
    let backend = test_backend();
    let mut session = SessionData::new();
    let url = handle_start_login(&mut session, &backend, Some(String::from("/after")))
        .expect("config should parse");
    let flow = session.flow.as_ref().expect("flow state missing");
    assert!(url.contains(&flow.csrf_state));
    assert_eq!(flow.next_url, Some(String::from("/after")));
    assert!(session.user.is_none());
}

#[test]
fn full_login_flow_redirects_to_the_stored_target() {
    let mut backend = test_backend();
    let mut session = SessionData::new();
    handle_start_login(&mut session, &backend, Some(String::from("/after")))
        .expect("config should parse");
    let state = session.flow.as_ref().unwrap().csrf_state.clone();
    let resp = AuthzResp { code: String::from("c1"), state };
    let out = handle_callback(&mut session, &mut backend, resp, success("tok1"));
    assert!(matches!(out, CallbackOutcome::Redirect(ref target) if target == "/after"));
    assert_eq!(out.status_code(), 302);
    // The session is promoted and the flow state is consumed.
    let user = session.user.as_ref().expect("session not promoted");
    assert_eq!(user.email, String::from("a@x.com"));
    assert!(session.flow.is_none());
}

#[test]
fn login_without_stored_target_lands_on_the_default() {
    let mut backend = test_backend();
    let mut session = SessionData::new();
    handle_start_login(&mut session, &backend, None).expect("config should parse");
    let state = session.flow.as_ref().unwrap().csrf_state.clone();
    let out = handle_callback(
        &mut session,
        &mut backend,
        AuthzResp { code: String::from("c1"), state },
        success("tok1"),
    );
    assert!(matches!(out, CallbackOutcome::Redirect(ref target) if target == "/"));
}

#[test]
fn callback_without_flow_state_is_a_bad_request() {
    let mut backend = test_backend();
    let mut session = SessionData::new();
    let out = handle_callback(
        &mut session,
        &mut backend,
        AuthzResp { code: String::from("c1"), state: String::from("abc") },
        success("tok1"),
    );
    assert!(matches!(out, CallbackOutcome::BadRequest));
    assert_eq!(out.status_code(), 400);
    assert!(session.user.is_none());
}

#[test]
fn tampered_state_is_unauthorized_and_clears_the_flow() {
    let mut backend = test_backend();
    let mut session = SessionData::new();
    handle_start_login(&mut session, &backend, None).expect("config should parse");
    let out = handle_callback(
        &mut session,
        &mut backend,
        AuthzResp { code: String::from("c1"), state: String::from("forged") },
        success("tok1"),
    );
    assert!(matches!(out, CallbackOutcome::Unauthorized));
    assert_eq!(out.status_code(), 401);
    assert!(session.user.is_none());
    // Read-once: the flow state is gone, so a replay is a bad request.
    assert!(session.flow.is_none());
    assert_eq!(backend.store.users_len(), 0);
    assert_eq!(backend.store.links_len(), 0);
}

#[test]
fn provider_failure_maps_to_a_server_error() {
    let mut backend = test_backend();
    let mut session = SessionData::new();
    handle_start_login(&mut session, &backend, None).expect("config should parse");
    let state = session.flow.as_ref().unwrap().csrf_state.clone();
    let out = handle_callback(
        &mut session,
        &mut backend,
        AuthzResp { code: String::from("c1"), state },
        ProviderOutcome::ExchangeFailed,
    );
    assert!(matches!(out, CallbackOutcome::ServerError));
    assert_eq!(out.status_code(), 500);
    assert!(session.user.is_none());
}

#[test]
fn protected_route_answers_email_or_anonymous_fallback() {
    let mut backend = test_backend();
    let mut session = SessionData::new();
    assert_eq!(
        handle_protected(&session),
        String::from("You're not logged in.\nVisit `/auth/google` to do so.")
    );
    handle_start_login(&mut session, &backend, None).expect("config should parse");
    let state = session.flow.as_ref().unwrap().csrf_state.clone();
    handle_callback(
        &mut session,
        &mut backend,
        AuthzResp { code: String::from("c1"), state },
        success("tok1"),
    );
    assert_eq!(handle_protected(&session), String::from("a@x.com"));
}

#[test]
fn revalidation_keeps_a_session_whose_token_still_matches() {
    let mut backend = test_backend();
    let mut session = SessionData::new();
    handle_start_login(&mut session, &backend, None).expect("config should parse");
    let state = session.flow.as_ref().unwrap().csrf_state.clone();
    handle_callback(
        &mut session,
        &mut backend,
        AuthzResp { code: String::from("c1"), state },
        success("tok1"),
    );
    revalidate_session(&mut session, &backend);
    assert_eq!(session.user.as_ref().unwrap().email, String::from("a@x.com"));
}

#[test]
fn token_rotation_forces_logout_on_revalidation() {
    let mut backend = test_backend();
    let mut session = SessionData::new();
    handle_start_login(&mut session, &backend, None).expect("config should parse");
    let state = session.flow.as_ref().unwrap().csrf_state.clone();
    handle_callback(
        &mut session,
        &mut backend,
        AuthzResp { code: String::from("c1"), state },
        success("tok1"),
    );
    // The stored token is rotated out from under the session.
    backend.store.rotate_access_token(
        &String::from("google"),
        &String::from("g-1"),
        String::from("rotated"),
    );
    // The reloaded principal no longer matches the captured secret.
    let stored_hash = session.user.as_ref().unwrap().access_token.clone();
    let reloaded = backend
        .get_user(session.user.as_ref().unwrap().id())
        .unwrap()
        .unwrap();
    assert!(!check_session_integrity(&stored_hash, &reloaded));
    // Revalidation demotes the session to anonymous instead of crashing.
    revalidate_session(&mut session, &backend);
    assert!(session.user.is_none());
}

#[test]
fn revalidation_of_an_anonymous_session_is_a_no_op() {
    let backend = test_backend();
    let mut session = SessionData::new();
    revalidate_session(&mut session, &backend);
    assert!(session.user.is_none());
    assert!(session.flow.is_none());
}
