[package]
name = "word_book"
version = "0.1.0"
edition = "2021"
publish = false

[dependencies]
rand = "0.9"
rusqlite = { version = "*", features = ["bundled"] }
serde = { version = "1", features = ["derive"] }
serde_json = "1"
