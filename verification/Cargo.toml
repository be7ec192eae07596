[package]
name = "suiup"
version = "0.1.0"
edition = "2021"
publish = false

[dependencies]
md5 = "*"
anyhow = "*"
clap = { version = "*", features = ["derive", "env"] }
reqwest = { version = "*", default-features = false, features = ["blocking", "json", "rustls-tls"] }
serde = { version = "*", features = ["derive"] }
serde_json = "*"
flate2 = "*"
tar = "*"
whoami = "*"
