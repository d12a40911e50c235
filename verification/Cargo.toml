[package]
name = "juno_http"
version = "0.1.0"
edition = "2021"
publish = false

[dependencies]
serde_json = "=1.0.154"
juno = "=0.1.2"
thruster = "=1.3.13"
tokio = { version = "=0.2.25", features = ["full"] }
futures = "=0.3.34"
clap = "=2.34.0"
bytes = "1"
lazy_static = "=1.5.1"
