[package]
name = "keyberon"
version = "0.1.0"
edition = "2021"
publish = false

[dependencies]
arraydeque = "=0.5.1"
heapless = "=0.8.0"
embedded-hal = { version = "=0.2.7", features = ["unproven"] }
usb-device = "=0.3.2"
