[package]
name = "exercise_entry"
version = "0.1.0"
edition = "2021"
publish = false

[dependencies]
inquire = "*"
serde = { version = "1", features = ["derive"] }
serde_json = { version = "1", features = ["preserve_order"] }
strum_macros = "*"
