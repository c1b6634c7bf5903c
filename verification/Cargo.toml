[package]
name = "clipee_windows"
version = "0.1.0"
edition = "2021"
publish = false

[dependencies]
image = { version = "0.24", default-features = false }
wtf8 = "0.1"
once_cell = "1"
parking_lot = "0.12"
thiserror = "1"
scopeguard = "1"
