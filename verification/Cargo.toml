[package]
name = "ronix"
version = "0.1.0"
edition = "2021"
publish = false

[dependencies]
rand = "0.8"
walkdir = "2"
lofty = "*"
serde = { version = "1", features = ["derive"] }
serde_json = "1"
directories = "*"
