[package]
name = "hyper_uds"
version = "0.1.0"
edition = "2021"
publish = false

[dependencies]
bytes = "0.5"
futures-core = "0.3"
futures-util = { version = "0.3", default-features = false, features = ["alloc"] }
hex = "0.4"
hyper = "0.13"
tokio = { version = "0.2", features = ["blocking", "io-util", "rt-core", "uds"] }
winapi = { version = "0.3", features = ["handleapi", "winbase", "winsock2", "ws2def", "winnt"] }
