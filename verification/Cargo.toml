[package]
name = "posts_cache"
version = "0.1.0"
edition = "2021"
publish = false

[dependencies]
dotenv = "*"
env_logger = "*"
hyper = { version = "0.14", features = ["full"] }
log = "*"
reqwest = { version = "*", default-features = false, features = ["json"] }
serde = { version = "*", features = ["derive"] }
serde_json = "*"
tokio = { version = "*", features = ["full"] }
