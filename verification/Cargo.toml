[package]
name = "nn"
version = "0.1.0"
edition = "2021"
publish = false

[dependencies]
rand = "*"
rustc-serialize = "*"
time = "*"
log = "*"
crossbeam = "*"
simple_parallel = "*"
