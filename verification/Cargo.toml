[package]
name = "sqlitegraph_wal"
version = "0.1.0"
edition = "2021"
publish = false

[dependencies]
parking_lot = "0.12"
serde = { version = "1", features = ["derive"] }
serde_json = "1"
