[package]
name = "pin-scoped"
version = "0.1.0"
edition = "2021"
publish = false

[dependencies]
diatomic-waker = "0.2"
loom = { version = "0.7", features = ["futures"] }
parking_lot_core = "0.9"
pin-project-lite = "0.2"
slotmap = "1"
tokio = { version = "1", features = ["macros", "rt", "rt-multi-thread", "sync", "time"] }

[dev-dependencies]
futures-util = "0.3"
