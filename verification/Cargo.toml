[package]
name = "presence_relay"
version = "0.1.0"
edition = "2021"
publish = false

[dependencies]
rand = "=0.8.8"
mio = { version = "=0.8.11", features = ["os-poll", "os-ext"] }
nix = { version = "=0.27.1", features = ["fs"] }
log = "0.4"
env_logger = "=0.10.2"
