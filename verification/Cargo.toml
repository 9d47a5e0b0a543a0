[package]
name = "lazy_monitor"
version = "0.1.0"
edition = "2021"
publish = false

[dependencies]
active-win-pos-rs = "=0.8.4"
chrono = { version = "=0.4.45", default-features = false, features = ["clock"] }
colored = "=2.2.0"
