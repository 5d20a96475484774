[package]
name = "pheno_plugins"
version = "0.1.0"
edition = "2021"
publish = false

[dependencies]
serde = { version = "1", features = ["derive"] }
serde_json = "1"
serde_yaml = "0.9"
thiserror = "2"
async-trait = "0.1"
tokio = { version = "1", features = ["process", "rt", "macros"] }
rusqlite = { version = "*", features = ["bundled"] }
