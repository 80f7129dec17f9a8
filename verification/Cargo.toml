[package]
name = "pmbus_bridge"
version = "0.1.0"
edition = "2021"
publish = false

[dependencies]
csv = "1"
chrono = "0.4"
plotters = { version = "0.3", default-features = false, features = ["chrono", "line_series"] }
rfd = "0.15"
serialport = { version = "4", default-features = false }

[dev-dependencies]
bincode = "2"
