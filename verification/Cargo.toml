[package]
name = "sqhooks"
version = "0.1.0"
edition = "2021"
publish = false

[dependencies]
log = "0.4"
parking_lot = "0.12"
retour = { version = "0.3", features = ["static-detour"] }
rrplug = "*"
