[package]
name = "nasko"
version = "0.1.0"
edition = "2021"
publish = false

[dependencies]
ansi_term = "0.12"
chrono = "0.4"
num_cpus = "1"
uuid = { version = "1", features = ["v4"] }
