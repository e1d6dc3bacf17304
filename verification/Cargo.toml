[package]
name = "link_shorter"
version = "0.1.0"
edition = "2021"
publish = false

[dependencies]
axum = "*"
chrono = "0.4"
clap = { version = "*", features = ["derive", "env"] }
color-eyre = "*"
dotenvy = "*"
env_logger = "*"
log = "*"
rand = "0.8"
rusqlite = { version = "*", features = ["bundled"] }
serde = { version = "*", features = ["derive"] }
tokio = { version = "*", features = ["rt-multi-thread", "macros", "net", "signal", "sync"] }
url = "*"
urlencoding = "2"
