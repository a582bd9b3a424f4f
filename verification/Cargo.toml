[package]
name = "account_auth"
version = "0.1.0"
edition = "2021"
publish = false

[dependencies]
sha2 = "=0.11.0"
hex = "=0.4.3"
subtle = "=2.6.1"
uuid = { version = "=1.27.0", features = ["v4"] }
jsonwebtoken = { version = "=11.1.0", features = ["rust_crypto"] }
chrono = "=0.4.45"
serde_json = "=1.0.151"
getrandom = "=0.4.3"
serde = { version = "=1.0.229", features = ["derive"] }
actix-web = "=4.15.0"
dotenvy = "=0.15.7"
env_logger = "=0.11.11"
log = "=0.4.34"
thiserror = "=2.0.21"
