[package]
name = "dojolib"
version = "0.1.0"
edition = "2021"
publish = false

[dependencies]
ringbuf = "=0.4.8"
serialport = { version = "=4.10.1", default-features = false }
eframe = { version = "=0.31.1", default-features = false, features = ["glow", "x11", "default_fonts"] }
