[package]
name = "tau"
version = "0.1.0"
edition = "2021"
publish = false

[dependencies]
heapless = "0.8"
libm = "0.2"
embassy-time = "*"
embassy-sync = "*"
embassy-futures = "*"
embassy-executor = "*"
embassy-usb = "*"
defmt = "*"
defmt-rtt = "*"
panic-probe = "*"
static_cell = "*"
cortex-m = "*"
