[package]
name = "ai_agent_pc"
version = "0.1.0"
edition = "2021"
publish = false

[dependencies]
anyhow = "1"
blake3 = "1"
chrono = "0.4"
dirs = "5"
futures = "0.3"
reqwest = { version = "0.12", default-features = false, features = ["json", "stream"] }
rusqlite = "0.31"
serde = { version = "1", features = ["derive"] }
serde_json = "1"
tantivy = "0.22"
tracing = "0.1"
tracing-subscriber = "0.3"
walkdir = "2"
