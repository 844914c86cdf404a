[package]
name = "zerolaunch"
version = "0.1.0"
edition = "2021"
publish = false

[dependencies]
sha2 = "=0.10.9"
dashmap = "=6.2.1"
serde = { version = "=1.0.229", features = ["derive"] }
serde_json = "=1.0.154"
tokio = { version = "=1.54.1", features = ["sync", "time", "rt", "macros"] }
async-trait = "=0.1.92"
base64 = "=0.22.1"
lru = "=0.19.0"
parking_lot = "=0.12.5"
thiserror = "=2.0.21"
regex = "=1.13.1"
url = "=2.5.8"
tracing = "=0.1.44"
futures-util = "=0.3.34"
semver = "=1.0.28"
toml = "=1.1.8"
reqwest = { version = "=0.12.28", default-features = false, features = ["json", "rustls-tls"] }
ollama-rs = { version = "=0.3.6", default-features = false, features = ["stream", "rustls"] }
async-openai = { version = "=0.43.0", features = ["chat-completion", "embedding"] }
winreg = "*"
