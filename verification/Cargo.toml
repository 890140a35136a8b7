[package]
name = "tracker-discord-bot"
version = "0.1.0"
edition = "2021"
publish = false

[dependencies]
anyhow = "1"
chrono = "0.4"
fern = "0.6"
flume = "0.10"
log = "0.4"
mc_protocol = "*"
reqwest = { version = "0.11", default-features = false, features = ["rustls-tls"] }
serde = "1"
serde_derive = "1"
serde_json = "1"
serenity = "0.11"
tokio = { version = "1", features = ["rt-multi-thread", "macros", "net", "io-util", "time", "sync"] }
