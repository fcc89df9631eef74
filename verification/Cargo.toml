[package]
name = "trace_summary"
version = "0.1.0"
edition = "2021"
publish = false

[dependencies]
bincode = "1.3"
serde = { version = "1", features = ["derive"] }
