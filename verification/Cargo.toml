[package]
name = "cql_driver"
version = "0.1.0"
edition = "2021"
publish = false

[dependencies]
tokio = { version = "1", features = ["net", "sync", "io-util", "rt", "macros"] }
