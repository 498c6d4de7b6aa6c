[package]
name = "wandex"
version = "0.1.0"
edition = "2021"
publish = false

[dependencies]
chrono = "0.4"
dirs-2 = "*"
nix = { version = "*", features = ["signal", "process"] }
libc = "*"
termion = "*"
parking_lot = "*"
