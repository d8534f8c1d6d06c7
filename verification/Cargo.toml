[package]
name = "viv_board"
version = "0.1.0"
edition = "2021"
publish = false

[dependencies]
zip = { version = "*", default-features = false }
serde = { version = "*", features = ["derive"] }
