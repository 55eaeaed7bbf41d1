[package]
name = "shop_core"
version = "0.1.0"
edition = "2021"
publish = false

[dependencies]
jsonwebtoken = { version = "=11.1.0", features = ["rust_crypto"] }
bcrypt = "=0.19.3"
chrono = "=0.4.45"
uuid = { version = "=1.27.0", features = ["v4"] }
serde = { version = "=1.0.229", features = ["derive"] }
serde_json = "=1.0.151"
