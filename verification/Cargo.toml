[package]
name = "auth_core"
version = "0.1.0"
edition = "2021"
publish = false

[dependencies]
oauth2 = { version = "=4.4.2", default-features = false }
serde = { version = "1", features = ["derive"] }
axum = "=0.8.9"
axum-login = "=0.18.0"
tower-sessions = { version = "=0.14.0", features = ["memory-store"] }
tokio = { version = "1", features = ["rt-multi-thread", "macros", "net"] }
reqwest = { version = "=0.12.28", default-features = false, features = ["json", "rustls-tls"] }
dotenvy = "*"
time = "=0.3.55"
tracing = "*"
tracing-subscriber = { version = "*", features = ["env-filter"] }
thiserror = "*"
