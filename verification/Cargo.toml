[package]
name = "dcc_decoder"
version = "0.1.0"
edition = "2021"
publish = false

[dependencies]
bytemuck = "1"
discrete_pid = "*"
embassy-executor = "*"
embassy-futures = "*"
embassy-rp = { version = "*", features = ["rp2040"] }
embassy-sync = "*"
embassy-time = "*"
embedded-hal = "1"
fixed = "1"
heapless = "0.8"
assign-resources = "*"
cortex-m = "0.7"
