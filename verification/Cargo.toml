[package]
name = "console_logging"
version = "0.1.0"
edition = "2021"
publish = false

[dependencies]
chrono = { version = "0.4", default-features = false, features = ["clock"] }
colored = "2"
futures = "0.3"
indexmap = "2"
indicatif = "0.15"
lazy_static = "1"
log = "0.4"
num_cpus = "1"
parking_lot = "0.12"
simplelog = { version = "0.11", default-features = false }
tokio = { version = "1", default-features = false, features = ["rt"] }
uuid = { version = "1", features = ["v4"] }
