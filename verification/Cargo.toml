[package]
name = "creator_archive"
version = "0.1.0"
edition = "2021"
publish = false

[dependencies]
select = "=0.6.1"
sanitize-filename = "=0.6.0"
clap = { version = "=3.2.25", features = ["derive"] }
reqwest = { version = "=0.11.27", default-features = false, features = ["rustls-tls", "stream", "socks"] }
tokio = { version = "=1.54.1", features = ["rt-multi-thread", "macros", "fs", "io-util"] }
futures-util = "=0.3.34"
indicatif = "=0.17.11"
colored = "=2.2.0"
log = "=0.4.34"

[dev-dependencies]
onig = { version = "6", default-features = false }
