[package]
name = "net_state"
version = "0.1.0"
edition = "2021"
publish = false

[dependencies]
tokio = { version = "1", default-features = false, features = ["sync"] }
futures-util = { version = "0.3", default-features = false, features = ["std"] }
