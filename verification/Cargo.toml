[package]
name = "luau_retarget"
version = "0.1.0"
edition = "2021"
publish = false

[dependencies]
dunce = "1"
full_moon = { version = "1", features = ["luau"] }
serde = { version = "1", features = ["derive"] }
serde_json = "1"
walkdir = "2"
