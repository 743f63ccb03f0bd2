[package]
name = "pairchat"
version = "0.1.0"
edition = "2021"
publish = false

[dependencies]
axum = "0.7"
axum-extra = { version = "0.9", features = ["typed-header"] }
base64 = "0.22"
clap = { version = "4", features = ["derive"] }
env_logger = "0.11"
headers = "0.4"
log = "0.4"
rand_core = { version = "0.6", features = ["getrandom"] }
serde = { version = "1", features = ["derive"] }
tera = { version = "1", default-features = false }
tokio = { version = "1", features = ["macros", "rt-multi-thread", "time", "net"] }
url = "2"
