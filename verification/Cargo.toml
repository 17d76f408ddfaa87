[package]
name = "esp_examples"
version = "0.1.0"
edition = "2021"
publish = false

[dependencies]
anyhow = "1"
critical-section = "1"
debouncr = "=0.2.2"
embassy-executor = "0.5"
embassy-sync = "0.5"
embassy-time = { version = "=0.3.2", features = ["tick-hz-1_000_000"] }
embedded-hal = "1"
embedded-hal-async = "1"
embedded-io-async = "0.6"
embedded-svc = "*"
esp-idf-hal = "0.44"
esp-idf-svc = "0.49"
esp-idf-sys = "0.35"
esp32-nimble = "*"
heapless = "=0.8.0"
libm = "0.2"
menu = "=0.4.0"
portable-atomic = "1"
