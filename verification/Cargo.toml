[package]
name = "picacg_app"
version = "0.1.0"
edition = "2021"
publish = false

[dependencies]
urlencoding = "=2.1.3"
chrono = "=0.4.45"
open = "=5.4.5"
reqwest = { version = "0.12", default-features = false, features = ["blocking", "rustls-tls"] }
