[package]
name = "cs2_dumper"
version = "0.1.0"
edition = "2021"
publish = false

[dependencies]
anyhow = "1"
heck = "0.5"
log = "0.4"
memflow = "0.2"
pelite = "0.10"
regex = "1"
serde_json = "1"
