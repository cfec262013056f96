[package]
name = "map_data"
version = "0.1.0"
edition = "2021"
publish = false

[dependencies]
tokio = { version = "1", features = ["rt"] }
wincode = { version = "*", features = ["derive"] }
