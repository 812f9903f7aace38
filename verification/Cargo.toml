[package]
name = "social_credit"
version = "0.1.0"
edition = "2021"
publish = false

[dependencies]
anyhow = "1"
matrix-sdk = { version = "0.6", default-features = false, features = ["rustls-tls"] }
rusqlite = { version = "0.29", features = ["bundled"] }
tokio = { version = "1", features = ["macros", "rt-multi-thread", "time"] }
