[package]
name = "nat_predict"
version = "0.1.0"
edition = "2021"
publish = false

[dependencies]
anyhow = "=1.0.104"
bytes = "=1.12.1"
futures = "=0.3.34"
log = "=0.4.35"
tokio = { version = "=1.54.1", features = ["net", "time", "macros", "rt"] }
