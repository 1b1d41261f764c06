[package]
name = "rw"
version = "0.1.0"
edition = "2021"
publish = false

[dependencies]
arbitrary = { version = "=1.4.2", features = ["derive"] }
