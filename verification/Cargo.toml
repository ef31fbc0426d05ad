[package]
name = "uuid_pool"
version = "0.1.0"
edition = "2021"
publish = false

[dependencies]
dashmap = "6"
parking_lot = "0.12"
rand = "0.9"
thiserror = "2"
uuid = { version = "1", features = ["v8"] }
