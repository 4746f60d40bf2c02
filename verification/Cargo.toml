[package]
name = "punlock"
version = "0.1.0"
edition = "2021"
publish = false

[dependencies]
aes-gcm = "=0.11.1"
anyhow = "=1.0.104"
async-trait = "=0.1.92"
base64 = "=0.23.1"
clap = { version = "=4.6.7", features = ["derive"] }
dialog = "=0.3.0"
directories = "=6.0.0"
dirs = "=7.0.0"
futures = "=0.3.34"
hex = "=0.4.3"
hkdf = "=0.13.0"
hmac = "=0.13.0"
pbkdf2 = "=0.13.0"
reqwest = { version = "=0.13.5", default-features = false, features = ["form", "json"] }
rpassword = "=7.5.4"
serde = { version = "=1.0.229", features = ["derive"] }
serde_json = "=1.0.151"
sha2 = "=0.11.0"
tokio = { version = "=1.53.2", features = ["rt-multi-thread", "macros", "process", "fs", "io-util"] }
toml = "=1.1.7"
tracing = "=0.1.44"
tracing-subscriber = { version = "=0.3.23", features = ["env-filter"] }
