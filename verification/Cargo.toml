[package]
name = "rump"
version = "0.1.0"
edition = "2021"
publish = false

[dependencies]
anyhow = "=1.0.104"
ashpd = { version = "=0.13.13", features = ["global_shortcuts"] }
base64 = "=0.22.1"
crossbeam-channel = "=0.5.17"
dirs = "=7.0.0"
evdev = "=0.13.2"
futures-util = "=0.3.34"
gtk4 = "=0.11.5"
libadwaita = { version = "=0.9.2", features = ["v1_4"] }
nix = { version = "=0.31.3", features = ["signal"] }
ogg = "=0.9.2"
opus = "=0.4.0"
serde = { version = "=1.0.229", features = ["derive"] }
serde_json = "=1.0.154"
toml = "=1.1.8"
vorbis_rs = "=0.5.6"
