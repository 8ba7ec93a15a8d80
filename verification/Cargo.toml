[package]
name = "self_esp"
version = "0.1.0"
edition = "2021"
publish = false

[dependencies]
reqwest = { version = "=0.12.28", default-features = false, features = ["blocking"] }
esp-idf-part = "=0.5.0"
serialport = { version = "=4.10.1", default-features = false }
espflash = "=3.3.0"
notify = "=6.1.1"
tempfile = "=3.27.0"
indicatif = "=0.17.11"
miette = "=7.6.0"
anyhow = "=1.0.104"
log = "=0.4.35"
