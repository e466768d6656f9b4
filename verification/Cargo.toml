[package]
name = "wikifacts"
version = "0.1.0"
edition = "2021"
publish = false

[dependencies]
serde_json = "*"
crossbeam = "*"
ctrlc = "*"
fern = "*"
log = "*"
rayon-core = "*"
thiserror = "*"
