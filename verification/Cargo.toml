[package]
name = "masterstat"
version = "0.1.0"
edition = "2021"
publish = false

[dependencies]
anyhow = "1"
futures = "0.3"
thiserror = "2"
tokio = { version = "1", features = ["macros", "net", "rt", "sync", "time"] }

[dev-dependencies]
binrw = "0.14"
