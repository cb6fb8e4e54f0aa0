[package]
name = "cas_client"
version = "0.1.0"
edition = "2021"
publish = false

[dependencies]
url = "*"
roxmltree = "*"
reqwest = { version = "*", default-features = false, features = ["blocking"] }
