[package]
name = "hgk_desktop"
version = "0.1.0"
edition = "2021"
publish = false

[dependencies]
atspi = "*"
zbus = "*"
reqwest = { version = "*", default-features = false }
serde = { version = "*", features = ["derive"] }
serde_json = "*"
tokio = { version = "*", features = ["rt-multi-thread", "macros", "sync", "time"] }
futures = "*"
