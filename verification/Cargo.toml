[package]
name = "streamtrim"
version = "0.1.0"
edition = "2021"
publish = false

[dependencies]
chrono = "*"
anyhow = "*"
tokio = { version = "*", features = ["rt-multi-thread", "macros", "fs", "process"] }
sqlx = { version = "*", default-features = false, features = ["sqlite", "runtime-tokio"] }
