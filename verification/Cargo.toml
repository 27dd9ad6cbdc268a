[package]
name = "restaurant"
version = "0.1.0"
edition = "2021"
publish = false

[dependencies]
actix-web = { version = "4", default-features = false, features = ["macros"] }
env_logger = "=0.6.2"
rand = "=0.7.3"
serde = { version = "=1.0.229", features = ["derive"] }
serde_derive = "=1.0.229"
uuid = { version = "=0.8.2", features = ["v4", "serde"] }
