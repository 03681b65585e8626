[package]
name = "drummix"
version = "0.1.0"
edition = "2021"
publish = false

[dependencies]
hound = "3"
cpal = "0.8"
rayon = "1"
serde = { version = "1", features = ["derive"] }
reqwest = { version = "0.12", default-features = false, features = ["blocking", "json"] }
