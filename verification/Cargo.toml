[package]
name = "connection_pool"
version = "0.1.0"
edition = "2021"
publish = false

[dependencies]
iroh = "*"
n0-error = "*"
n0-future = "*"
tokio = { version = "1", features = ["sync", "macros", "rt", "rt-multi-thread", "time"] }
tracing = "*"
derive_more = { version = "*", features = ["debug"] }
