[package]
name = "file_intake"
version = "0.1.0"
edition = "2021"
publish = false

[dependencies]
bytes = "1"
image = "0.25"
tokio = { version = "1", features = ["rt"] }
