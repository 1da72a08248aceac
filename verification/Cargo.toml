[package]
name = "sshscan"
version = "0.1.0"
edition = "2021"
publish = false

[dependencies]
anyhow = "*"
async-ssh2-lite = { version = "*", features = ["tokio"] }
clap = { version = "*", features = ["derive"] }
futures = "*"
itertools = "*"
log = "*"
patharg = "*"
tokio = { version = "*", features = ["macros", "rt-multi-thread", "time", "sync", "net"] }
tokio-stream = "*"
tracing = "*"
tracing-subscriber = "*"
