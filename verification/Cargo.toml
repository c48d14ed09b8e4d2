[package]
name = "connection_pool"
version = "0.1.0"
edition = "2021"
publish = false

[dependencies]
atomic = "*"
bytemuck = { version = "1", features = ["derive"] }
cassandra-protocol = "*"
derive_more = { version = "*", features = ["display"] }
futures = "0.3"
itertools = "*"
tokio = { version = "1", features = ["rt", "sync", "time"] }
tracing = "0.1"
