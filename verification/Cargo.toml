[package]
name = "arcropolis"
version = "0.1.0"
edition = "2021"
publish = false

[dependencies]
smash-arc = { version = "=0.6.0", features = ["nozstd"] }
once_cell = "=1.21.4"
parking_lot = "=0.12.5"
camino = "=1.2.6"
crc32fast = "=1.5.2"
