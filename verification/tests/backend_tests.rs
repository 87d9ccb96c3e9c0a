//! Tests of the authentication backend: the CSRF gate, the upsert
//! semantics, reload, and the error taxonomy.

use auth_core::backend::{begin_authenticate, Backend, Credentials, ProviderConfig, ProviderOutcome};
use auth_core::error::BackendError;
use auth_core::profile::{GoogleRes, UserProfile};
use auth_core::store::MemStore;

fn test_config() -> ProviderConfig {
    ProviderConfig {
        client_id: String::from("client-id-123"),
        client_secret: String::from("client-secret-456"),
        auth_url: String::from(
            "https://accounts.example.com/o/oauth2/v2/auth?scope=openid%20profile%20email",
        ),
        token_url: String::from("https://oauth2.example.com/token"),
        redirect_url: String::from("https://localhost:3000/auth/google_callback"),
    }
}

fn test_backend() -> Backend {
    Backend::new(test_config(), MemStore::new())
}

fn profile(email: &str, sub: &str) -> UserProfile {
    UserProfile {
        email: String::from(email),
        email_verified: true,
        given_name: String::from("A"),
        family_name: String::from("X"),
        sub: String::from(sub),
        picture: String::from("http://pics.example.com/a.png"),
    }
}

fn success(token: &str, email: &str, sub: &str) -> ProviderOutcome {
    ProviderOutcome::Success(GoogleRes {
        access_token: String::from(token),
        profile: profile(email, sub),
    })
}

fn matched_creds(code: &str) -> Credentials {
    Credentials {
        provider: String::from("google"),
        code: String::from(code),
        old_state: String::from("abc"),
        new_state: String::from("abc"),
    }
}

#[test]
fn csrf_mismatch_is_rejected_without_store_writes() {
    let mut backend = test_backend();
    let creds = Credentials {
        provider: String::from("google"),
        code: String::from("c1"),
        old_state: String::from("abc"),
        new_state: String::from("xyz"),
    };
    // The begin step hands the driver nothing, so zero provider calls.
    assert!(begin_authenticate(&creds).is_none());
    // Even with a provider outcome in hand, the attempt is rejected softly.
    let r = backend.authenticate(&creds, success("tok1", "a@x.com", "g-1"));
    assert!(matches!(r, Ok(None)));
    assert_eq!(backend.store.users_len(), 0);
    assert_eq!(backend.store.links_len(), 0);
}

#[test]
fn begin_authenticate_hands_out_the_code_on_a_match() {
    let creds = matched_creds("the-code");
    let code = begin_authenticate(&creds);
    assert_eq!(code, Some(&String::from("the-code")));
}

#[test]
fn happy_path_returns_principal_and_persists_it() {
    let mut backend = test_backend();
    let r = backend.authenticate(&matched_creds("c1"), success("tok1", "a@x.com", "g-1"));
    let user = r.expect("hard error").expect("rejected");
    assert_eq!(user.email, String::from("a@x.com"));
    assert_eq!(user.access_token, String::from("tok1"));
    assert_eq!(backend.store.users_len(), 1);
    assert_eq!(backend.store.links_len(), 1);
}

#[test]
fn second_login_reuses_the_identity_and_overwrites_the_token() {
    let mut backend = test_backend();
    let first = backend
        .authenticate(&matched_creds("c1"), success("tok1", "a@x.com", "g-1"))
        .unwrap()
        .unwrap();
    let second = backend
        .authenticate(&matched_creds("c2"), success("tok2", "a@x.com", "g-1"))
        .unwrap()
        .unwrap();
    assert_eq!(first.id(), second.id());
    assert_eq!(second.email, String::from("a@x.com"));
    assert_eq!(second.access_token, String::from("tok2"));
    // Last write wins in the store as well.
    let stored = backend
        .store
        .stored_access_token(&String::from("google"), &String::from("g-1"))
        .expect("link missing");
    assert_eq!(*stored, String::from("tok2"));
    assert_eq!(backend.store.users_len(), 1);
    assert_eq!(backend.store.links_len(), 1);
}

#[test]
fn provider_outage_is_a_hard_error_not_a_rejection() {
    let mut backend = test_backend();
    let r = backend.authenticate(&matched_creds("c1"), ProviderOutcome::ExchangeFailed);
    assert!(matches!(r, Err(BackendError::ProviderExchange)));
    let r = backend.authenticate(&matched_creds("c2"), ProviderOutcome::ProfileFailed);
    assert!(matches!(r, Err(BackendError::ProviderProfile)));
    assert_eq!(backend.store.users_len(), 0);
}

#[test]
fn reload_returns_the_same_principal() {
    let mut backend = test_backend();
    let user = backend
        .authenticate(&matched_creds("c1"), success("tok1", "a@x.com", "g-1"))
        .unwrap()
        .unwrap();
    let reloaded = backend.get_user(user.id()).expect("hard error").expect("unknown id");
    assert_eq!(reloaded.id(), user.id());
    assert_eq!(reloaded.email, user.email);
    assert_eq!(reloaded.access_token, user.access_token);
}

#[test]
fn reload_of_an_unknown_id_is_none() {
    let backend = test_backend();
    let r = backend.get_user(999);
    assert!(matches!(r, Ok(None)));
}

#[test]
fn identity_without_link_is_a_session_integrity_error() {
    let mut backend = test_backend();
    // Write an identity row with no provider link: a partially-written
    // record, as after a crashed login.
    let row = backend.store.upsert_identity(&profile("b@x.com", "g-9"));
    let r = backend.get_user(row.id);
    assert!(matches!(r, Err(BackendError::SessionIntegrity)));
}

#[test]
fn authorize_url_embeds_a_fresh_token() {
    let backend = test_backend();
    let (url1, token1) = backend.authorize_url().expect("config should parse");
    let (url2, token2) = backend.authorize_url().expect("config should parse");
    // Unguessable: two consecutive tokens never coincide.
    assert_ne!(token1, token2);
    assert!(!token1.is_empty());
    // The token is embedded verbatim in the URL, as the state query pair.
    assert!(url1.contains(&token1));
    assert!(url1.contains(&format!("state={}", token1)));
    // The URL is really built from the configuration, not echoed input.
    assert!(url1.starts_with("https://accounts.example.com/o/oauth2/v2/auth"));
    assert!(url1.contains("client-id-123"));
    assert!(url1.contains("redirect_uri="));
    assert!(url2.contains(&token2));
}

#[test]
fn authorize_url_rejects_a_malformed_endpoint() {
    let config = ProviderConfig {
        client_id: String::from("id"),
        client_secret: String::from("secret"),
        auth_url: String::from("not a url"),
        token_url: String::from("https://oauth2.example.com/token"),
        redirect_url: String::from("https://localhost:3000/cb"),
    };
    let backend = Backend::new(config, MemStore::new());
    assert!(backend.authorize_url().is_none());
}

#[test]
fn token_rotation_overwrites_the_stored_token() {
    let mut backend = test_backend();
    backend
        .authenticate(&matched_creds("c1"), success("tok1", "a@x.com", "g-1"))
        .unwrap()
        .unwrap();
    let rotated = backend.store.rotate_access_token(
        &String::from("google"),
        &String::from("g-1"),
        String::from("rotated"),
    );
    assert!(rotated);
    let stored = backend
        .store
        .stored_access_token(&String::from("google"), &String::from("g-1"))
        .expect("link missing");
    assert_eq!(*stored, String::from("rotated"));
    // Rotating an absent link is a no-op.
    let rotated = backend.store.rotate_access_token(
        &String::from("google"),
        &String::from("g-2"),
        String::from("x"),
    );
    assert!(!rotated);
}
