[package]
name = "homework_scheme"
version = "0.1.0"
edition = "2021"
publish = false

[dependencies]
redox_syscall = "0.5"
redox-scheme = "0.2"
redox-daemon = "0.1"
anyhow = "1"
