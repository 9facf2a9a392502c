[package]
name = "sysz"
version = "0.1.0"
edition = "2021"
publish = false

[dependencies]
rand = "0.9"
regex = "1"
shell-words = "1"
chrono = "0.4"
colored = "3"
image = { version = "0.25", default-features = false, features = ["png", "jpeg"] }
terminal_size = "0.4"
thiserror = "2"
