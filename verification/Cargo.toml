[package]
name = "spaces_node"
version = "0.1.0"
edition = "2021"
publish = false

[dependencies]
base64 = "*"
bitcoin = "*"
reqwest = { version = "*", default-features = false, features = ["blocking"] }
serde_json = "*"
threadpool = "*"
