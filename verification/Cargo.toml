[package]
name = "ert"
version = "0.1.0"
edition = "2021"
publish = false

[dependencies]
futures = "0.3"
lazy_static = "1"
log = "0.4"
tokio = { version = "1", features = ["rt", "rt-multi-thread", "sync"] }
