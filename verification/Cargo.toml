[package]
name = "tokio_kcp"
version = "0.11.0"
edition = "2021"
publish = false

[dependencies]
byte_string = "1"
futures-util = "0.3"
kcp = "0.6.0"
log = "0.4"
rand = "0.8"
reed-solomon-erasure = "6"
spin = "0.9"
tokio = { version = "1", features = ["net", "rt", "sync", "time", "macros", "io-util"] }
