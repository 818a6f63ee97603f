[package]
name = "usb2snes_core"
version = "0.1.0"
edition = "2021"
publish = false

[dependencies]
napi = "2"
napi-derive = "2"
serialport = { version = "4", default-features = false }
