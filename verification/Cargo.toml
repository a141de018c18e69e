[package]
name = "aistore"
version = "0.1.0"
edition = "2021"
publish = false

[dependencies]
async-trait = "0.1"
bytes = "1"
chrono = { version = "0.4", default-features = false, features = ["std", "clock"] }
futures = "0.3"
object_store = { version = "0.12", default-features = false }
quick-xml = "0.37"
reqwest = { version = "0.12", default-features = false, features = ["stream"] }
thiserror = "2"
tokio = { version = "1", features = ["sync", "time"] }
