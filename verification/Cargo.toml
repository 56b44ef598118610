[package]
name = "rnet"
version = "0.1.0"
edition = "2021"
publish = false

[dependencies]
bytes = "=1.12.1"
core_affinity = "=0.8.3"
crossbeam = "=0.8.5"
mio = { version = "=1.2.4", features = ["os-poll", "net"] }
slab = "=0.4.12"
smallvec = "=1.16.4"
socket2 = { version = "=0.6.5", features = ["all"] }
