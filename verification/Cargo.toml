[package]
name = "boothrflow"
version = "0.1.0"
edition = "2021"
publish = false

[dependencies]
serde = { version = "1", features = ["derive"] }
serde_json = "1"
once_cell = "1"
parking_lot = "0.12"
dirs = "5"
chrono = { version = "0.4", default-features = false, features = ["clock", "std"] }
thiserror = "1"
tracing = "0.1"
