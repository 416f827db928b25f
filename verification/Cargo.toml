[package]
name = "timely"
version = "0.1.0"
edition = "2021"
publish = false

[dependencies]
jiff = "0.1"
serde = { version = "1", features = ["derive"] }
