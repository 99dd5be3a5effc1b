[package]
name = "helldivers"
version = "0.1.0"
edition = "2021"
publish = false

[dependencies]
toml = "0.8"
serde = { version = "1", features = ["derive"] }
serde_json = "1"
once_cell = "1"
reqwest = { version = "0.12", default-features = false, features = ["json"] }
