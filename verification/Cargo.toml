[package]
name = "dozer-recordstore"
version = "0.1.0"
edition = "2021"
publish = false

[dependencies]
chrono = { version = "=0.4.45", features = ["serde"] }
ordered-float = { version = "=3.9.2", features = ["serde"] }
rust_decimal = "=1.43.0"
serde = { version = "=1.0.229", features = ["derive"] }
triomphe = "=0.1.17"

[dev-dependencies]
bincode = "=1.3.3"
