[package]
name = "yadgar-project"
version = "0.1.0"
edition = "2021"
publish = false

[dependencies]
prost = "0.14"
tokio = { version = "1", features = ["macros", "rt-multi-thread", "sync", "signal"] }
tonic = "0.14"
tonic-prost = "0.14"
tracing = "0.1"
tracing-subscriber = { version = "0.3", features = ["env-filter", "json"] }
