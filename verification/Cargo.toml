[package]
name = "sigil"
version = "0.3.0"
edition = "2021"
publish = false

[dependencies]
figlet-rs = "=0.1.5"
unicode-normalization = "=0.1.26"
unicode-width = "=0.2.3"
serde = { version = "=1.0.229", features = ["derive"] }
toml = "=1.1.8"
clap = { version = "=4.6.7", features = ["derive"] }
clap_complete = "=4.6.11"
clap_mangen = "=0.3.3"
