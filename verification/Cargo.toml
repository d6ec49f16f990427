[package]
name = "iceberg-catalog"
version = "0.1.0"
edition = "2021"
publish = false

[dependencies]
tiberius = "*"
deadpool = "*"
tokio = { version = "*", features = ["rt-multi-thread", "macros", "net", "sync", "time"] }
tokio-util = { version = "*", features = ["compat"] }
anyhow = "*"
async-trait = "*"
