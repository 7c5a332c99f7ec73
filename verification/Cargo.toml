[package]
name = "hygrocal"
version = "0.1.0"
edition = "2021"
publish = false

[dependencies]
chrono = "*"
serde = { version = "*", features = ["derive"] }
actix-web = { version = "*", default-features = false, features = ["macros"] }
actix-files = "*"
env_logger = "*"
serialport = { version = "*", default-features = false }
