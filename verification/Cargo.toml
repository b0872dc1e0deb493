[package]
name = "kafpy"
version = "0.1.0"
edition = "2021"
publish = false

[dependencies]
glob = "0.3"
regex = "1"
tokio-util = "0.7"
chrono = "0.4"
tokio = { version = "1", features = ["rt-multi-thread", "macros", "sync", "time", "signal"] }
tokio-stream = "0.1"
rand = "0.8"
parking_lot = "0.12"
prometheus-client = "0.24"
thiserror = "2"
rayon = "1"
pyo3 = "0.26"
pyo3-async-runtimes = { version = "0.26", features = ["tokio-runtime"] }
rdkafka = "0.38"
