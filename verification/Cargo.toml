[package]
name = "qzone_exporter"
version = "0.1.0"
edition = "2021"
publish = false

[dependencies]
chrono = "=0.4.45"
reqwest = { version = "=0.13.5", default-features = false, features = ["cookies", "rustls"] }
reqwest_cookie_store = "=0.10.0"
tokio = { version = "=1.53.2", features = ["rt-multi-thread", "macros", "fs", "io-util", "time"] }
