[package]
name = "embark_oss"
version = "0.1.0"
edition = "2021"
publish = false

[dependencies]
eyre = "0.6"
futures = "0.3"
itertools = "0.10"
regex = "1"
reqwest = { version = "0.11", default-features = false, features = ["json", "rustls-tls"] }
serde = { version = "1", features = ["derive"] }
serde_json = "1"
structopt = "0.3"
tokio = { version = "1", features = ["macros", "rt-multi-thread"] }
