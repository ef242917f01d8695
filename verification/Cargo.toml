[package]
name = "gw_psc"
version = "0.1.0"
edition = "2021"
publish = false

[dependencies]
anyhow = "1"
ckb-types = "*"
clap = "2.34"
hex = "0.4"
log = "0.4"
rand = "0.8"
serde_json = "1"
tokio = { version = "1", features = ["macros", "rt-multi-thread", "sync", "time"] }
