[package]
name = "hii_database"
version = "0.1.0"
edition = "2021"

[dependencies]
uefi = { version = "*", features = ["alloc"] }
