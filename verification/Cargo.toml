[package]
name = "launcherg"
version = "0.1.0"
edition = "2021"
publish = false

[dependencies]
tokio = { version = "1", features = ["rt-multi-thread", "time", "sync", "macros"] }
sysinfo = "0.29"
notify = "6"
