[package]
name = "ats_bot"
version = "0.1.0"
edition = "2021"
publish = false

[dependencies]
anyhow = "=1.0.104"
async-trait = "=0.1.92"
bincode = "=1.3.3"
chrono = "=0.4.45"
env_logger = "=0.11.11"
humantime = "=2.4.0"
log = "=0.4.35"
num-complex = "=0.4.6"
rustfft = "=6.4.1"
serde = { version = "=1.0.229", features = ["derive"] }
serde_json = "=1.0.154"
serde_yaml = "=0.9.34"
sqlx = { version = "=0.7.4", default-features = false, features = ["runtime-tokio", "postgres", "chrono", "json"] }
takecell = "=0.1.1"
teloxide = { version = "=0.12.2", default-features = false, features = ["macros", "ctrlc_handler", "rustls"] }
tokio = { version = "=1.54.1", features = ["macros", "rt-multi-thread", "signal", "time", "sync", "net"] }
tokio-util = "=0.7.20"
