[package]
name = "diag_service"
version = "0.1.0"
edition = "2021"
publish = false

[dependencies]
bit_field = "0.10"
byteorder = "1"
serde = { version = "1", features = ["derive"] }
serde_with = { version = "3", features = ["hex"] }
