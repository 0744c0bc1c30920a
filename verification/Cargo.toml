[package]
name = "power_monitor"
version = "0.1.0"
edition = "2021"
publish = false

[dependencies]
color-eyre = "0.6"
core-foundation-sys = "0.8"
sysinfo = { version = "*", default-features = false, features = ["system"] }
