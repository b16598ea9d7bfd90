[package]
name = "bruh78"
version = "0.1.0"
edition = "2021"
publish = false

[dependencies]
embassy-sync = "=0.8.0"
embassy-time = "=0.5.1"
embassy-futures = "=0.1.2"
embassy-nrf = { version = "=0.11.0", features = ["nrf52840", "time-driver-rtc1", "unstable-pac"] }
cortex-m = "=0.7.10"

[dev-dependencies]
critical-section = { version = "=1.2.0", features = ["std"] }
