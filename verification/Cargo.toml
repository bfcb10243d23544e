[package]
name = "diary_backend"
version = "0.1.0"
edition = "2021"
publish = false

[dependencies]
sha2 = "0.10"
async-graphql = { version = "7", default-features = false }
serde = { version = "1", features = ["derive"] }
