[package]
name = "tuilab"
version = "0.1.0"
edition = "2021"
publish = false

[dependencies]
regex = "1"
serde = { version = "1", features = ["derive"] }
serde_json = "1"
serde_yaml = "0.9"
tokio = { version = "1", features = ["rt-multi-thread", "macros", "io-std", "io-util", "sync", "time"] }
clap = { version = "4", features = ["derive"] }
crossterm = "*"
rmcp = { version = "*", features = ["server", "transport-io", "macros"] }
schemars = "*"
tracing = "0.1"
tracing-subscriber = "0.3"
