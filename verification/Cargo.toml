[package]
name = "airisp"
version = "0.1.0"
edition = "2021"
publish = false

[dependencies]
chrono = "=0.4.45"
clap = "=4.6.7"
colored = "=2.2.0"
lazy_static = "=1.5.1"
serde = { version = "=1.0.229", features = ["derive"] }
serialport = { version = "=4.10.1", default-features = false }
tokio = { version = "=1.54.1", features = ["rt-multi-thread", "time"] }
toml = "=0.8.23"
whoami = "=1.6.1"
