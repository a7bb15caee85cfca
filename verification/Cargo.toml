[package]
name = "mdns_responder"
version = "0.1.0"
edition = "2021"
publish = false

[dependencies]
futures-core = "0.3"
if-addrs = "0.7"
log = "0.4"
nix = "0.23"
socket2 = { version = "0.4", features = ["all"] }
tokio = { version = "1", features = ["net", "sync"] }
