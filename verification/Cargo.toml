[package]
name = "hybrid_rbac_abac"
version = "0.1.0"
edition = "2021"
publish = false

[dependencies]
chrono = "=0.4.45"
uuid = { version = "=1.29.0", features = ["v4"] }
bcrypt = "=0.19.3"
jsonwebtoken = { version = "=11.1.0", features = ["rust_crypto"] }
serde = { version = "=1.0.229", features = ["derive"] }
serde_json = { version = "=1.0.154", features = ["preserve_order"] }
actix-web = { version = "=4.18.1", default-features = false, features = ["macros"] }
futures-util = "=0.3.34"
env_logger = { version = "=0.11.11", default-features = false }
