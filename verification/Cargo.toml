[package]
name = "media_host"
version = "0.1.0"
edition = "2021"
publish = false

[dependencies]
infer = "*"
uuid = { version = "*", features = ["v4"] }
actix-web = "*"
actix-multipart = "*"
futures-util = "*"
reqwest = "*"
serde = { version = "*", features = ["derive"] }
serde_json = "*"
toml = "*"
