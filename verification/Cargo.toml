[package]
name = "skycurrent"
version = "0.1.0"
edition = "2021"
publish = false

[dependencies]
tokio = { version = "=1.54.1", features = ["full"] }
parking_lot = "=0.12.5"
rand = "=0.8.8"
pollster = "=0.4.0"
bitvec = "=1.1.1"
postage = "=0.5.0"
hyper = { version = "=1.12.0", features = ["server", "http1"] }
hyper-util = { version = "=0.1.21", features = ["tokio"] }
http-body-util = "=0.1.5"
fastwebsockets = { version = "=0.8.1", features = ["upgrade"] }
dunce = "=1.0.5"
