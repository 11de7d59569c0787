[package]
name = "domainx"
version = "0.1.5"
edition = "2021"
publish = false

[dependencies]
decimalx = "=0.1.5"
serde = { version = "=1.0.229", features = ["derive"] }
