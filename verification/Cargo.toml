[package]
name = "xmly_exporter"
version = "0.1.0"
edition = "2021"
publish = false

[dependencies]
clipboard = "0.5"
image = "0.21"
lazy_static = "1"
rand = "0.6"
reqwest = { version = "0.9", default-features = false, features = ["rustls-tls"] }
serde_json = "1"
tempfile = "3"
