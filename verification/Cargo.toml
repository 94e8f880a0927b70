[package]
name = "fischys-fancontrol"
version = "0.1.0"
edition = "2021"
publish = false

[dependencies]
hashbrown = "=0.15.5"
regex = "=1.13.1"
serde = { version = "=1.0.229", features = ["derive"] }
serde_derive = "=1.0.229"
serde_json = "=1.0.154"
clap = { version = "=4.6.7", features = ["derive"] }
log = "=0.4.35"
simple_logger = "=5.2.0"
systemd-journal-logger = "=2.2.2"
signal-hook = "=0.3.18"
nvml-wrapper = "0.13"
typetag = "=0.2.23"
csv = "=1.4.0"
strum = { version = "=0.26.3", features = ["derive"] }
lazy_static = "=1.5.1"
tap = "=1.0.1"
