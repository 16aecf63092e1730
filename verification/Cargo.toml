[package]
name = "imu_core"
version = "0.1.0"
edition = "2021"
publish = false

[dependencies]
cobs = { version = "=0.3.0", default-features = false }
crc32fast = { version = "=1.5.4", default-features = false }
heapless = { version = "=0.8.0", features = ["serde"] }
postcard = { version = "=1.1.3", features = ["alloc"] }
serde = { version = "=1.0.229", features = ["derive"] }
serde_json = "=1.0.154"
serde-json-core = "=0.7.0"
serialport = { version = "=4.10.1", default-features = false }
embedded-hal = "=1.0.0"
