[package]
name = "deploy_dispatcher"
version = "0.1.0"
edition = "2021"
publish = false

[dependencies]
hyper = "=0.10.16"
rustc-serialize = "=0.3.25"
slack-hook = { version = "=0.9.1", features = ["blocking"] }
time = "=0.1.45"
