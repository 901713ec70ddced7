[package]
name = "declaratest"
version = "0.1.0"
edition = "2021"
publish = false

[dependencies]
clap = { version = "4", features = ["derive"] }
docx-rs = "0.4"
docx-rust = "*"
rand = "0.8"
regex = "1"
serde = { version = "1", features = ["derive"] }
