[package]
name = "tedge_core"
version = "0.1.0"
edition = "2021"
publish = false

[dependencies]
anyhow = "1"
assert_cmd = "2"
async-stream = "0.3"
clap = { version = "3", features = ["derive"] }
futures = "0.3"
hyper = { version = "0.14", features = ["full"] }
notify = "5"
routerify = "3"
tokio = { version = "1", features = ["full"] }
try-traits = "0.1"
