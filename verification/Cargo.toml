[package]
name = "cn_offday"
version = "0.1.0"
edition = "2021"
publish = false

[dependencies]
time = { version = "0.3", features = ["parsing", "formatting"] }
once_cell = "1"
serde = { version = "1", features = ["derive"] }
serde_json = "1"
