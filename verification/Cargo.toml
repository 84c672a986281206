[package]
name = "irc_repartee"
version = "1.5.2"
edition = "2021"
publish = false

[dependencies]
chrono = "0.4"
futures-util = { version = "0.3", features = ["sink"] }
log = "0.4"
parking_lot = "0.12"
tokio = { version = "1", features = ["rt", "sync", "time"] }
