[package]
name = "sunny"
version = "0.1.0"
edition = "2021"
publish = false

[dependencies]
url = "2"
serenity = { version = "0.11", features = ["standard_framework"] }
tokio = { version = "1", features = ["rt-multi-thread", "macros"] }
tokio-postgres = "0.7"
futures-util = "0.3"
tracing = "0.1"
sysinfo = "0.29"
