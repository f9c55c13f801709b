[package]
name = "sup"
version = "0.1.0"
edition = "2021"
publish = false

[dependencies]
anyhow = "*"
chrono = "*"
clap = { version = "*", features = ["derive"] }
colored = "*"
regex = "*"
serde = { version = "*", features = ["derive"] }
serde_yaml = "*"
shell-quote = "*"
tokio = { version = "*", features = ["rt-multi-thread", "macros", "sync"] }
tracing = "*"
tracing-subscriber = "*"
whoami = "*"
