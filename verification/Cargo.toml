[package]
name = "toks_core"
version = "0.1.0"
edition = "2021"
publish = false

[dependencies]
anyhow = "1"
dirs = "5"
futures-util = "0.3"
getrandom = "0.3"
nix = { version = "0.29", features = ["fs", "user"] }
serde = { version = "1", features = ["derive"] }
serde_json = "1"
tokio = { version = "1", features = ["rt", "macros", "time", "process", "net", "sync", "signal", "io-util"] }
uuid = { version = "1", features = ["v4"] }

[dev-dependencies]
serde_json = "1"
tempfile = "3"
