[package]
name = "dirscan"
version = "0.1.0"
edition = "2021"
publish = false

[dependencies]
url = "2"
rand = "0.8"
anyhow = "1"
clap = { version = "4", features = ["derive"] }
colored = "2"
futures = "0.3"
reqwest = { version = "0.11", default-features = false, features = ["rustls-tls", "socks"] }
tokio = { version = "1", features = ["rt-multi-thread", "macros", "sync"] }
