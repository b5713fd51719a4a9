[package]
name = "ralph"
version = "0.1.0"
edition = "2021"
publish = false

[dependencies]
sha2 = "=0.10.9"
shlex = "=1.3.0"
serde_json = "=1.0.154"
serde = { version = "=1.0.229", features = ["derive"] }
toml = "=0.8.23"
chrono = "=0.4.45"
colored = "=2.2.0"
anyhow = "=1.0.104"
clap = { version = "=4.6.7", features = ["derive", "env"] }
rusqlite = { version = "=0.31.0", features = ["bundled"] }
signal-hook = "=0.3.18"
async-trait = "=0.1.92"
tokio = { version = "=1.54.1", features = ["full"] }
tokio-util = { version = "=0.7.20", features = ["compat"] }
agent-client-protocol = "=0.9.5"
