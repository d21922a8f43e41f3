[package]
name = "bittorrent_rs"
version = "0.1.0"
edition = "2021"
publish = false

[dependencies]
anyhow = "*"
clap = { version = "*", features = ["derive"] }
futures = "*"
hex = "*"
nanoid = "*"
rand = "*"
reqwest = { version = "*", default-features = false }
serde = { version = "*", features = ["derive"] }
serde_bencode = "*"
serde_urlencoded = "*"
sha1 = "*"
tokio = { version = "*", features = ["rt-multi-thread", "net", "io-util", "sync", "fs", "macros"] }
tokio-util = { version = "*", features = ["codec"] }
