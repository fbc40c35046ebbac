[package]
name = "wasminspect"
version = "0.1.0"
edition = "2021"
publish = false

[dependencies]
anyhow = "1"
log = "0.4"
wasmparser = "0.78"
gimli = "0.22"
structopt = "0.3"
linefeed = "0.6"
serde = { version = "1", features = ["derive"] }
serde_json = "1"
num-bigint = "0.3"
num-traits = "0.2"
num-derive = "0.3"
tokio = { version = "1", features = ["full"] }
hyper = { version = "0.14", features = ["server", "client", "http1", "tcp", "runtime"] }
tokio-tungstenite = "0.14"
futures = "0.3"
headers = "0.3"
clap = "2"
