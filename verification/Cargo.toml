[package]
name = "playground"
version = "0.1.0"
edition = "2021"
publish = false

[dependencies]
chrono = "=0.4.45"
image = "=0.25.10"
log = "=0.4.35"
mac_address = "=1.2.1"
quick-xml = "=0.37.5"
show-image = { version = "=0.14.1", features = ["image"] }
tokio = { version = "=1.54.1", features = ["full"] }
tracing = "=0.1.44"
tracing-appender = "=0.2.5"
tracing-subscriber = "=0.3.23"
