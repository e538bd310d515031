[package]
name = "codex-reset-watch"
version = "1.0.0"
edition = "2021"
publish = false

[dependencies]
chrono = { version = "=0.4.41", default-features = false, features = ["std", "alloc", "serde"] }
chrono-tz = "=0.10.4"
url = "=2.5.4"
zeroize = "=1.8.1"
dotenvy = "=0.15.7"
sqlx = { version = "=0.8.6", default-features = false, features = ["sqlite", "runtime-tokio", "migrate", "chrono", "derive"] }
tokio = { version = "=1.47.1", features = ["macros", "rt-multi-thread"] }
anyhow = "=1.0.98"
thiserror = "=2.0.12"
serde = { version = "=1.0.219", features = ["derive"] }
