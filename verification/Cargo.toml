[package]
name = "agent_supervisor"
version = "0.1.0"
edition = "2021"
publish = false

[dependencies]
directories = "*"
futures = "0.3"
napi = { version = "2", features = ["napi4", "tokio_rt"] }
napi-derive = "2"
serde_json = "1"
tokio = { version = "1", features = ["sync", "rt", "process"] }
tracing = "0.1"
