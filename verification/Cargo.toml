[package]
name = "mini_x"
version = "0.1.0"
edition = "2021"
publish = false

[dependencies]
pwhash = "=1.0.0"
md-5 = "=0.10.6"
chrono = "=0.4.45"
actix-web = "=4.18.1"
actix-session = { version = "=0.9.0", features = ["cookie-session"] }
actix-identity = "=0.7.1"
actix-web-flash-messages = { version = "0.4", features = ["cookies"] }
serde = { version = "=1.0.229", features = ["derive"] }
log = "=0.4.35"
env_logger = "=0.11.11"
