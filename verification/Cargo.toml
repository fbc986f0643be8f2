[package]
name = "pdl"
version = "0.1.0"
edition = "2021"
publish = false

[dependencies]
codespan-reporting = "0.11"
serde = { version = "1", features = ["derive"] }
