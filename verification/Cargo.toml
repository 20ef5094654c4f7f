[package]
name = "nvimcord"
version = "0.1.0"
edition = "2021"
publish = false

[dependencies]
anyhow = "*"
discord-presence = "*"
lsp-types = "*"
serde = { version = "*", features = ["derive"] }
serde_json = "*"
serde_repr = "*"
tokio = { version = "*", features = ["macros", "rt-multi-thread", "sync", "time"] }
