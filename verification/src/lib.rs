//! A session-backed authentication core: the OAuth2 authorization-code flow
//! against an external identity provider, with server-side CSRF-state
//! verification and a persistent upsert of the resulting identity into a
//! local store.
//!
//! The library is organised leaf-first:
//! - [`profile`]: the data the provider returns for one login;
//! - [`store`]: the identity store — rows, invariants, and the upsert and
//!   reload transitions, verified against a mathematical model;
//! - [`backend`]: the authentication backend — CSRF comparison, the
//!   authorization URL, and the `authenticate` / `get_user` entry points;
//! - [`flow`]: the per-session two-step login flow (start-login, callback)
//!   and the protected-request handling;
//! - [`laws`]: proved statements relating the entry points to each other.
//!
//! Network and database transport stay outside: the backend takes the
//! provider's answer as a value and hands decisions back as values.

pub mod backend;
pub mod error;
pub mod flow;
pub mod laws;
pub mod profile;
pub mod store;
pub mod user;
