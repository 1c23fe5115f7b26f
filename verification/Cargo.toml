[package]
name = "portbridge"
version = "0.1.0"
edition = "2021"
publish = false

[dependencies]
hyper = { version = "0.14", features = ["full"] }
tokio = { version = "1", features = ["full"] }
tokio-rustls = "0.22"
ssh2 = "0.9"
futures = "0.3"
structopt = "0.3"
config = "0.11"
serde = { version = "1", features = ["derive"] }
