[package]
name = "tilt_maze"
version = "0.1.0"
edition = "2021"
publish = false

[dependencies]
heapless = "0.7"
lsm303agr = "0.2"
microbit-v2 = "0.12"
cortex-m-rt = "0.7"
panic-rtt-target = { version = "0.1", features = ["cortex-m"] }
rtt-target = { version = "0.3", features = ["cortex-m"] }
