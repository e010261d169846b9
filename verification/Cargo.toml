[package]
name = "dyndns"
version = "0.1.0"
edition = "2021"
publish = false

[dependencies]
local-ip-address = "*"
sha2 = "0.10"
base64 = "0.22"
subtle = "2"
rand_core = { version = "0.6", features = ["getrandom"] }
tokio = { version = "1", features = ["rt", "macros", "time", "sync", "signal"] }
isahc = "1"
