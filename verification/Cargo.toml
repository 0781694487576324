[package]
name = "sir-zips-a-lot"
version = "0.1.0"
edition = "2021"
publish = false

[dependencies]
anyhow = "1"
serde = { version = "1", features = ["derive"] }
serde_json = "1"
tempfile = "3"
walkdir = "2"
zip = { version = "2", default-features = false, features = ["deflate"] }
