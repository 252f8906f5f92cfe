[package]
name = "ruspiro_timer"
version = "0.1.0"
edition = "2021"
publish = false

[dependencies]
ruspiro-arch-aarch64 = "*"
ruspiro-interrupt = "*"
ruspiro-mmio-register = "*"
ruspiro-singleton = "*"
