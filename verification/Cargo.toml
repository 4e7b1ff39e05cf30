[package]
name = "telewol"
version = "0.1.0"
edition = "2021"
publish = false

[dependencies]
serde = { version = "1", features = ["derive"] }
toml = "*"
wake-on-lan = "=0.2.0"
teloxide = { version = "=0.12.2", features = ["macros"] }
tokio = { version = "1", features = ["rt-multi-thread", "macros"] }
takecell = "=0.1.1"
