[package]
name = "puressh"
version = "0.1.0"
edition = "2021"
publish = false

[dependencies]
purecrypto = "*"
compcol = "*"
zeroize = "*"
libc = "*"
futures-util = { version = "*", features = ["io"] }
tokio = { version = "*", features = ["net", "io-util"] }
tokio-util = { version = "*", features = ["compat"] }
