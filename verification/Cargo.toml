[package]
name = "proxy_server"
version = "0.1.0"
edition = "2021"
publish = false

[dependencies]
clap = { version = "4", features = ["derive"] }
openssl = "0.10"
reqwest = { version = "0.11", features = ["blocking"] }
rustls = "0.21"
rustls-pemfile = "2"
