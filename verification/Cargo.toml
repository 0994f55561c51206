[package]
name = "httprun"
version = "0.1.0"
edition = "2021"
publish = false

[dependencies]
boa_engine = "0.20"
clap = { version = "4", features = ["derive"] }
colored = "2"
reqwest = { version = "0.12", default-features = false, features = ["blocking", "rustls-tls"] }
serde_json = "1"
thiserror = "1"
uuid = { version = "1", features = ["v4"] }

[dev-dependencies]
regex = "1"
