[package]
name = "baremetal_rt"
version = "0.1.0"
edition = "2021"
publish = false

[dependencies]
cortex-m = { version = "0.7", features = ["critical-section-single-core"] }
cortex-m-rt = "0.7"
embedded-hal = "1.0"
lsm303agr = "1"
microbit-v2 = "*"
panic-halt = "*"
panic-rtt-target = "*"
rtt-target = "*"
