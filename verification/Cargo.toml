[package]
name = "sloth_agent"
version = "0.1.0"
edition = "2021"
publish = false

[dependencies]
a2a-client-lf = "=0.1.17"
a2a-lf = "=0.3.1"
anyhow = "=1.0.104"
async-openai = { version = "=0.43.0", features = ["chat-completion"] }
dashmap = "=6.2.1"
futures-util = "=0.3.34"
reqwest = { version = "=0.13.5", features = ["json"] }
rmcp = { version = "=3.8.0", features = ["client", "transport-streamable-http-client-reqwest"] }
serde = { version = "=1.0.229", features = ["derive"] }
serde_json = { version = "=1.0.154", features = ["preserve_order"] }
serde_yaml = "=0.9.34"
tokio = { version = "=1.54.1", features = ["full"] }
tokio-tungstenite = "=0.30.0"
toml = "=1.1.8"
tracing = "=0.1.44"
tracing-subscriber = { version = "=0.3.23", features = ["env-filter", "json"] }
url = "=2.5.8"
uuid = { version = "=1.29.0", features = ["v4"] }
