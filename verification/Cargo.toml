[package]
name = "antiphon"
version = "0.1.0"
edition = "2021"
publish = false

[dependencies]
age = "0.11"
chrono = { version = "0.4", default-features = false, features = ["clock", "std"] }
clap = { version = "4", features = ["derive"] }
flate2 = "1"
tar = "0.4"
rpassword = "7"

[dev-dependencies]
tempfile = "3"
