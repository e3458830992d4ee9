[package]
name = "lunaris"
version = "0.1.0"
edition = "2021"
publish = false

[dependencies]
bytes = "=1.12.1"
url = "=2.5.8"
urlencoding = "=2.1.3"
serde = { version = "=1.0.229", features = ["derive"] }
serde_json = "=1.0.154"
anyhow = "=1.0.104"
uuid = { version = "=1.29.0", features = ["v4"] }
hostname = "=0.4.2"
clap = { version = "=4.6.7", features = ["derive"] }
bcrypt = "=0.19.3"
jsonwebtoken = { version = "10", default-features = false, features = ["rust_crypto"] }
