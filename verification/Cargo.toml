[package]
name = "rust_cal"
version = "0.1.0"
edition = "2021"
publish = false

[dependencies]
ical = "*"
chrono = "*"
reqwest = { version = "*", default-features = false, features = ["blocking"] }
tabled = "*"
