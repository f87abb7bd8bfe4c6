[package]
name = "codex-plus-core"
version = "0.1.0"
edition = "2021"
publish = false

[dependencies]
toml_edit = "*"
serde = { version = "*", features = ["derive"] }
serde_json = "*"
zip = { version = "*", default-features = false, features = ["deflate"] }
rusqlite = { version = "*", features = ["bundled"] }
reqwest = { version = "*", default-features = false, features = ["json"] }
tokio = { version = "*", features = ["rt-multi-thread", "macros"] }
anyhow = "*"
directories = "*"
