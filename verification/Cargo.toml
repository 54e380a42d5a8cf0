[package]
name = "tanin"
version = "0.1.0"
edition = "2021"
publish = false

[dependencies]
anyhow = "1"
clap = { version = "4", features = ["derive"] }
cpal = "0.15"
crossterm = "0.28"
directories = "5"
log = "0.4"
magnum = "1"
minreq = "2"
nix = { version = "0.30", features = ["fs"] }
ratatui = "0.29"
rodio = "0.20"
serde = { version = "1", features = ["derive"] }
simplelog = "0.12"
toml = "0.8"
