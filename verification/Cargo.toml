[package]
name = "access_records"
version = "0.1.0"
edition = "2021"
publish = false

[dependencies]
chrono = { version = "0.4", default-features = false, features = ["std"] }
flate2 = "1"

[dev-dependencies]
regex = "1"
