[package]
name = "vending_machine"
version = "0.1.0"
edition = "2021"
publish = false

[dependencies]
crossbeam = "=0.8.5"
im = "=15.1.0"
rand = "=0.8.8"
regex = "=1.13.1"
sha3 = "=0.10.9"
time = "=0.3.55"
