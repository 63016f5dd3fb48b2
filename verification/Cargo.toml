[package]
name = "rendezvous"
version = "0.1.0"
edition = "2021"
publish = false

[dependencies]
async-speed-limit = "0.4"
async-trait = "0.1"
bytes = "1"
futures-util = "0.3"
ipnetwork = "0.20"
local-ip-address = "0.5"
log = "0.4"
sodiumoxide = "0.2"
tokio = { version = "1", features = ["full"] }
tokio-tungstenite = "0.17"
tokio-util = { version = "0.7", features = ["codec"] }
tungstenite = "0.17"
