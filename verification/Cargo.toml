[package]
name = "teralib"
version = "0.1.0"
edition = "2021"
publish = false

[dependencies]
serde_json = "*"
clap = { version = "*", features = ["derive"] }
color-eyre = "*"
ignore = "*"
thiserror = "*"
tracing = "*"
