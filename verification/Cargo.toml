[package]
name = "easyeda2altium"
version = "0.1.0"
edition = "2021"
publish = false

[dependencies]
altium = "*"
clap = { version = "4", features = ["derive"] }
reqwest = { version = "0.12", default-features = false, features = ["rustls-tls", "gzip"] }
serde_json = "1"
thiserror = "1"
tokio = { version = "1", features = ["macros", "rt-multi-thread"] }
