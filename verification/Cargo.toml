[package]
name = "chip_8_emulator"
version = "0.1.0"
edition = "2021"
publish = false

[dependencies]
once_cell = "1"
rand = "0.8"
spin_sleep = "1"
