[package]
name = "fantasyf1"
version = "0.1.0"
edition = "2021"
publish = false

[dependencies]
anyhow = "1"
chrono = { version = "0.4", default-features = false, features = ["std", "serde"] }
clap = { version = "4", features = ["derive"] }
deunicode = "1"
reqwest = { version = "0.12", features = ["json"] }
serde = { version = "1", features = ["derive"] }
serde_alias = "*"
serde_json = "1"
tokio = { version = "1", features = ["macros", "rt-multi-thread"] }
