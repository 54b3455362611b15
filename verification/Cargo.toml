[package]
name = "swapbytes"
version = "0.1.0"
edition = "2021"
publish = false

[dependencies]
age = { version = "0.11", default-features = false }
chrono = { version = "=0.4.45", default-features = false, features = ["now"] }
clap = { version = "=4.6.7", features = ["derive"] }
futures = "=0.3.34"
libp2p = { version = "=0.55.0", features = ["cbor", "ed25519", "gossipsub", "identify", "kad", "macros", "noise", "rendezvous", "request-response", "tcp", "yamux"] }
libp2p-swarm = { version = "=0.46.0", features = ["tokio"] }
libp2p-tcp = { version = "=0.43.0", features = ["tokio"] }
local-ip-address = "=0.6.13"
serde = { version = "=1.0.229", features = ["derive"] }
serde_json = "=1.0.154"
tokio = { version = "=1.54.1", features = ["fs", "io-std", "io-util", "macros", "rt-multi-thread", "time"] }
