[package]
name = "threadfeed"
version = "0.1.0"
edition = "2021"
publish = false

[dependencies]
markdown = "*"
chrono = "*"
serde = { version = "*", features = ["derive"] }
console_error_panic_hook = "*"
worker = { version = "*", features = ["d1"] }
