[package]
name = "comb"
version = "0.1.0"
edition = "2021"
publish = false

[dependencies]
serde = { version = "=1.0.229", features = ["derive"] }
serde_json = "=1.0.154"
serde_jcs = "=0.2.0"
sha2 = "=0.10.9"
hex = "=0.4.3"
thiserror = "=2.0.21"
anyhow = "=1.0.104"
clap = { version = "=4.6.7", features = ["derive"] }
tokio = { version = "=1.54.1", features = ["macros", "rt-multi-thread", "time", "net", "signal"] }
tokio-tungstenite = "=0.30.0"
futures-util = "=0.3.34"
url = "=2.5.8"
uuid = { version = "=1.29.0", features = ["v4"] }
nostr = { version = "=0.45.6", features = ["std", "os-rng"] }
rusqlite = { version = "=0.41.1", features = ["bundled"] }

[dev-dependencies]
tempfile = "=3.27.0"
