[package]
name = "download_relay"
version = "0.1.0"
edition = "2021"
publish = false

[dependencies]
actix-web = "4"
async-stream = "0.3"
log = "0.4"
mobc = "0.7"
mobc-postgres = "0.7"
rand = "0.8"
tokio = { version = "1", features = ["full"] }
tokio-postgres = "0.7"
