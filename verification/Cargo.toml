[package]
name = "smm_zerop"
version = "0.1.0"
edition = "2021"
publish = false

[dependencies]
anyhow = "*"
axum = "*"
chrono = "*"
clap = { version = "*", features = ["derive", "env"] }
csv = "*"
futures-util = "*"
minijinja = "*"
minijinja-contrib = "*"
reqwest = { version = "*", default-features = false, features = ["json", "rustls-tls"] }
serde = { version = "*", features = ["derive"] }
serde_json = "*"
serde_urlencoded = "*"
sqlx = { version = "*", default-features = false, features = ["runtime-tokio", "tls-rustls", "postgres"] }
thiserror = "*"
tiberius = { version = "*", features = ["chrono"] }
tokio = { version = "*", features = ["full"] }
tokio-util = { version = "*", features = ["compat"] }
toml = "*"
tower-http = { version = "*", features = ["cors"] }
tracing = "*"
tracing-subscriber = { version = "*", features = ["json"] }
