[package]
name = "updater"
version = "0.1.0"
edition = "2021"
publish = false

[dependencies]
zip = { version = "=8.6.0", default-features = false, features = ["deflate"] }
anyhow = "*"
clap = { version = "*", features = ["derive"] }
futures = "*"
octocrab = "=0.43.0"
once_cell = "*"
reqwest = { version = "*", default-features = false, features = ["rustls-tls", "stream"] }
tokio = { version = "*", features = ["full"] }
tempfile = "*"
