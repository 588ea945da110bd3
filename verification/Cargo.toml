[package]
name = "shpool"
version = "0.1.0"
edition = "2021"
publish = false

[dependencies]
anyhow = "=1.0.104"
byteorder = "=1.5.0"
crossbeam = "=0.8.5"
ctrlc = "=3.5.2"
log = "=0.4.34"
motd = { version = "=0.2.3", default-features = false }
nix = "=0.23.2"
rmp-serde = "=1.3.1"
serde = "=1.0.229"
serde_derive = "=1.0.229"
termini = "=1.0.0"
toml = "=1.1.6"
tracing = "=0.1.44"
