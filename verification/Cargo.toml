[package]
name = "wasmcloud-test-util"
version = "0.1.0"
edition = "2021"
publish = false

[dependencies]
anyhow = "=1.0.104"
async-nats = "0.31"
async-trait = "=0.1.92"
base64 = "=0.13.1"
futures = "=0.3.34"
log = "=0.4.35"
nkeys = "0.3"
regex = "=1.13.1"
serde = { version = "=1.0.229", features = ["derive"] }
serde_json = "=1.0.154"
termcolor = "=1.4.1"
tokio = { version = "=1.54.1", features = ["full"] }
toml = "0.7"
wasmbus-rpc = "=0.15.0"
wasmcloud-interface-testing = "=0.10.0"
