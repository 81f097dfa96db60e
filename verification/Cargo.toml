[package]
name = "isuports"
version = "0.1.0"
edition = "2021"
publish = false

[dependencies]
actix-multipart = "0.6"
actix-web = "4"
bytes = "1"
csv = "1"
futures-util = "0.3"
jsonwebtoken = "8"
listenfd = "1"
nix = { version = "0.26", default-features = false, features = ["fs"] }
pprof-integration = "*"
rand = "0.8"
regex = "1"
reqwest = { version = "0.11", default-features = false }
serde = { version = "1", features = ["derive"] }
sqlx = { version = "0.6", features = ["runtime-actix-rustls", "mysql", "sqlite"] }
thiserror = "1"
tokio = { version = "1", features = ["fs", "process", "sync", "time", "rt"] }
tracing = "0.1"
tracing-subscriber = { version = "0.3", features = ["env-filter", "json"] }
