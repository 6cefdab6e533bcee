[package]
name = "voltaalert-core"
version = "0.1.0"
edition = "2021"
publish = false

[dependencies]
chrono = { version = "0.4", features = ["serde"] }
tokio = { version = "1", features = ["full"] }
serde = { version = "1", features = ["derive"] }
serde_json = "1"
rusqlite = { version = "*", features = ["chrono"] }
clap = { version = "4", features = ["derive"] }
zeromq = "*"
log = "0.4"
