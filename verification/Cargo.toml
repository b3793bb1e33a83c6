[package]
name = "symlinker"
version = "0.1.0"
edition = "2021"
publish = false

[dependencies]
chrono = "*"
colored = "*"
directories = "*"
sysinfo = "*"

[dev-dependencies]
serde_json = "*"
