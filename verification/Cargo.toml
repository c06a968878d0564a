[package]
name = "proton"
version = "0.1.0"
edition = "2021"
publish = false

[dependencies]
bimap = "0.6"
cidr = "*"
neli = "0.4"
network-manager = "*"
nl80211 = "*"
pnet = "*"
serde = { version = "1", features = ["derive"] }
tokio = { version = "1", features = ["macros", "rt-multi-thread", "sync", "time"] }
