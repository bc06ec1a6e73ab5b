[package]
name = "domino_recorder"
version = "0.1.0"
edition = "2021"
publish = false

[dependencies]
anyhow = "1"
audiopus = "*"
chrono = "0.4"
clap = { version = "4", features = ["derive"] }
dirs = "*"
fs2 = "0.4"
libc = "0.2"
ogg = "*"
ringbuf = "0.4"
serde = { version = "1", features = ["derive"] }
serde_json = "1"
tracing = "0.1"
tracing-subscriber = { version = "0.3", features = ["env-filter"] }
