[package]
name = "mado"
version = "0.1.0"
edition = "2021"
publish = false

[dependencies]
thiserror = "2"
serde = { version = "1", features = ["derive"] }
serde_json = "1"
sha1 = "0.10"
sha2 = "0.10"
hex = "0.4"
tokio = { version = "1", features = ["rt", "rt-multi-thread", "sync", "fs", "io-util", "macros"] }
reqwest = { version = "0.12", default-features = false, features = ["stream"] }
futures-util = "0.3"
clap = { version = "4", features = ["derive"] }
