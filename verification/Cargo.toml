[package]
name = "rendezvous_relay"
version = "0.1.0"
edition = "2021"
publish = false

[dependencies]
tokio = { version = "*", features = ["full"] }
clap = { version = "*", features = ["derive"] }
rustls = "*"
rustls-pemfile = "*"
tokio-rustls = "*"
