[package]
name = "tmux_mcp"
version = "0.1.0"
edition = "2021"
publish = false

[dependencies]
axum = "0.7"
regex = "1"
reqwest = { version = "0.12", default-features = false, features = ["json"] }
schemars = "1"
serde = { version = "1", features = ["derive"] }
serde_json = "1"
shell-words = "1"
thiserror = "2"
tokio = { version = "1", features = ["full"] }
toml = "0.9"
uuid = { version = "1", features = ["v4"] }
