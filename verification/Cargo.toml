[package]
name = "responses_fix"
version = "0.1.0"
edition = "2021"
publish = false

[dependencies]
serde_json = "1"
axum = "0.8"
reqwest = { version = "0.12", default-features = false, features = ["json", "stream", "rustls-tls"] }
eventsource-stream = "0.2"
futures = "0.3"
tokio = { version = "1", features = ["macros", "rt-multi-thread", "net"] }
log = "0.4"
colog = "1"
