[package]
name = "cipher"
version = "0.1.0"
edition = "2021"
publish = false

[dependencies]
anyhow = "=1.0.104"
async-trait = "=0.1.92"
chrono = "=0.4.45"
clap = { version = "=4.6.7", features = ["derive"] }
console = "=0.16.6"
directories = "=6.0.0"
epub = "=2.1.6"
htmd = "=0.5.6"
inquire = "=0.9.4"
schemars = "=1.2.3"
serde = { version = "=1.0.229", features = ["derive"] }
serde_json = "=1.0.154"
sha2 = "=0.11.1"
thiserror = "=2.0.21"
tokio = { version = "=1.54.1", features = ["full"] }
toml = "=1.1.8"
