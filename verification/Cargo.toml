[package]
name = "hotkey_listener"
version = "0.1.0"
edition = "2021"
publish = false

[dependencies]
anyhow = "1"
evdev = "0.12"
libc = "0.2"
log = "0.4"
nix = { version = "0.26", features = ["fs"] }
rdev = "0.5"
