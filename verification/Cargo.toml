[package]
name = "enki"
version = "0.1.0"
edition = "2021"
publish = false

[dependencies]
serde_json = "1"
crossbeam-channel = "0.5"
ctrlc = "3"
rand = "0.8"
rand_distr = "0.4"

[dev-dependencies]
ordered-float = "4"
