[package]
name = "cal"
version = "0.1.0"
edition = "2021"
publish = false

[dependencies]
chrono = { version = "0.4", default-features = false, features = ["std", "clock"] }
structopt = { version = "0.3", features = ["paw"] }
paw = "1"
colored = "2"
