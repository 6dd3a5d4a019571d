[package]
name = "authware"
version = "0.1.0"
edition = "2021"
publish = false

[dependencies]
again = "*"
anyhow = "*"
async-trait = "*"
axum = "*"
axum-extra = { version = "*", features = ["typed-header"] }
axum-server = { version = "*", features = ["tls-rustls"] }
base64 = "*"
chrono = { version = "*", default-features = false, features = ["clock"] }
clap = { version = "*", features = ["derive", "env"] }
deadpool-redis = { version = "*", features = ["rt_tokio_1"] }
humantime = "*"
log = "*"
magic-crypt = "*"
rand = "0.8"
rcgen = "*"
reqwest = { version = "*", default-features = false }
serde = { version = "*", features = ["derive"] }
serde_json = "*"
serde-xml-rs = "*"
thiserror = "*"
tokio = { version = "*", features = ["macros", "rt-multi-thread", "signal"] }
tower-http = { version = "*", features = ["cors", "timeout", "trace"] }
tracing = "*"
tracing-subscriber = { version = "*", features = ["env-filter", "fmt"] }
urlencoding = "*"
