[package]
name = "middle-sock"
version = "0.1.0"
edition = "2021"
publish = false

[dependencies]
clap = { version = "=4.6.7", features = ["derive"] }
dhcproto = "=0.15.0"
env_logger = "=0.11.11"
futures = "=0.3.34"
log = "=0.4.34"
nix = { version = "=0.31.3", features = ["sched", "process", "fs"] }
rtnetlink = "=0.23.0"
tokio = { version = "=1.54.1", features = ["full"] }
