[package]
name = "oxide_batch"
version = "0.1.0"
edition = "2021"
publish = false

[dependencies]
csv = "*"
futures-util = "*"
serde_json = "1"
sha2 = "*"
sqlx = { version = "*", default-features = false, features = ["postgres", "runtime-tokio"] }
tokio = { version = "1", features = ["fs", "io-util", "rt", "sync"] }
