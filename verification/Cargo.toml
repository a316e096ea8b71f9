[package]
name = "nvw"
version = "0.1.0"
edition = "2021"
publish = false

[dependencies]
uuid = { version = "=1.29.0", features = ["v4", "serde"] }
chrono = { version = "=0.4.45", features = ["serde"] }
serde = { version = "=1.0.229", features = ["derive"] }
serde_json = "=1.0.154"
anyhow = "=1.0.104"
axum = "=0.8.9"
tokio = { version = "=1.54.1", features = ["full"] }
tracing = "=0.1.44"
tracing-subscriber = "=0.3.23"
diesel = { version = "=2.3.14", features = ["sqlite", "r2d2", "chrono"] }
clap = { version = "=4.6.7", features = ["derive", "env"] }
reqwest = { version = "=0.12.28", default-features = false, features = ["json", "rustls-tls"] }
argmin = "=0.11.0"
argmin-math = { version = "=0.5.1", features = ["nalgebra_latest"] }
argmin-observer-slog = "=0.2.0"
nalgebra = "=0.34.2"
rand = "=0.9.5"
itertools = "=0.14.0"
