[package]
name = "vnc_rs"
version = "0.1.0"
edition = "2021"
publish = false

[dependencies]
flate2 = "=1.1.10"
tokio = { version = "=1.53.2", features = ["full"] }
anyhow = "=1.0.104"
des = "*"
