[package]
name = "sourcemapt"
version = "0.1.0"
edition = "2021"
publish = false

[dependencies]
dirs = "*"
openai_dive = "*"
reqwest = { version = "*", features = ["json"] }
serde = { version = "1", features = ["derive"] }
serde_json = "1"
tokio = { version = "1", features = ["macros", "rt-multi-thread"] }
toml = "*"
