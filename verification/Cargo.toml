[package]
name = "ddcci_brightness"
version = "0.1.0"
edition = "2021"
publish = false

[dependencies]
ddc-hi = { version = "=0.4.1", default-features = false }
anyhow = "=1.0.104"
thiserror = "=2.0.21"
