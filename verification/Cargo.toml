[package]
name = "sump_telemetry"
version = "0.1.0"
edition = "2021"
publish = false

[dependencies]
cyw43 = { version = "=0.7.0", features = ["defmt"] }
defmt = "=1.2.0"
defmt-rtt = "=1.3.1"
embassy-executor = { version = "=0.9.1", features = ["defmt"] }
embassy-futures = "=0.1.2"
embassy-net = { version = "=0.9.1", features = ["defmt", "tcp", "dhcpv4", "proto-ipv4", "medium-ethernet"] }
embassy-sync = { version = "=0.8.0", features = ["defmt"] }
embassy-time = { version = "=0.5.1", features = ["defmt"] }
embedded-alloc = "*"
embedded-graphics = "=0.8.1"
heapless = "=0.9.3"
panic-probe = { version = "=1.0.0", features = ["print-defmt"] }
rand = { version = "0.9", default-features = false }
ssd1306 = { version = "=0.10.0", features = ["async"] }
static_cell = "=2.1.1"
tinybmp = "=0.7.0"
