[package]
name = "hci_adapter"
version = "0.1.0"
edition = "2021"
publish = false

[dependencies]
bytes = "=0.4.12"
libc = "=0.2.191"
log = "0.4"
nom = "=3.2.1"
