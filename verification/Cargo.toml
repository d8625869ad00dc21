[package]
name = "schnorr_zk_dlog"
version = "0.1.0"
edition = "2021"
publish = false

[dependencies]
k256 = { version = "0.13", default-features = false, features = ["arithmetic", "std"] }
sha2 = "0.10"
rand_core = { version = "0.6", features = ["getrandom"] }
log = "0.4"
env_logger = "0.11"
