[package]
name = "segdash"
version = "0.1.0"
edition = "2021"
publish = false

[dependencies]
anyhow = "*"
clap = { version = "*", features = ["derive"] }
crossterm = "*"
futures = "*"
m3u8-rs = "*"
ratatui = "*"
reqwest = { version = "*", default-features = false, features = ["rustls-tls"] }
shellexpand = "*"
tokio = { version = "*", features = ["rt-multi-thread", "macros", "sync", "time", "fs", "io-util"] }
url = "*"
