[package]
name = "basalt_cli"
version = "0.1.0"
edition = "2021"
publish = false

[dependencies]
ansi_term = "=0.12.1"
anyhow = "=1.0.104"
bollard = "=0.18.1"
clap = { version = "=4.6.7", features = ["derive"] }
colored = "=2.2.0"
dialoguer = "=0.11.0"
futures = "=0.3.34"
hdrhistogram = "=7.6.0"
lazy_static = "=1.5.1"
local-ip-address = "=0.6.13"
reqwest = { version = "=0.12.28", default-features = false, features = ["json"] }
reqwest-websocket = "=0.4.4"
serde_json = "=1.0.154"
tempdir = "=0.3.7"
tera = "=1.20.1"
tokio = { version = "=1.54.1", features = ["full"] }
tokio-process-stream = "=0.4.1"
tokio-stream = "=0.1.19"
tokio-tar = "=0.3.1"
