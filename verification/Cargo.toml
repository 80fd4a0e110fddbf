[package]
name = "nexus"
version = "0.1.0"
edition = "2021"
publish = false

[dependencies]
kameo = "*"
rkyv = "*"
thiserror = "*"
tokio = { version = "*", features = ["full"] }
