[package]
name = "ecdysis"
version = "0.1.0"
edition = "2021"
publish = false

[dependencies]
arc-swap = "=1.9.3"
tokio = { version = "=1.54.1", features = ["full"] }
wasmtime = { version = "=46.0.3", default-features = false, features = ["cranelift", "runtime", "std", "wat"] }
wat = "=1.252.0"
tokio-tungstenite = "=0.30.0"
futures-util = "=0.3.34"
tracing = "=0.1.44"
tracing-subscriber = { version = "=0.3.23", features = ["env-filter"] }
proc-macro2 = "=1.0.107"
cap = "=0.1.2"
