[package]
name = "vitals"
version = "0.1.0"
edition = "2021"
publish = false

[dependencies]
nvml-wrapper = "*"
tokio = { version = "1", features = ["rt", "rt-multi-thread", "macros"] }
zbus = "*"
