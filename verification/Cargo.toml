[package]
name = "ib_core"
version = "0.1.0"
edition = "2021"
publish = false

[dependencies]
tokio = { version = "*", features = ["net", "sync", "time", "rt", "io-util"] }
futures = "*"
crossbeam = "*"
chrono = "*"
rust_decimal = "*"
