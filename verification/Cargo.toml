[package]
name = "dictation"
version = "0.1.0"
edition = "2021"
publish = false

[dependencies]
arboard = { version = "3", default-features = false }
directories = "6"
hound = "3.5"
rdev = "0.5"
serde = { version = "1", features = ["derive"] }
serde_json = "1"
single-instance = "0.3"
tracing = "0.1"
tracing-appender = "0.2"
tracing-subscriber = "0.3"
