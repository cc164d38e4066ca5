[package]
name = "nmea_log_player"
version = "0.1.0"
edition = "2021"
publish = false

[dependencies]
bytes = "*"
chrono = "0.4"
clap = "*"
nmea = "*"
serialport = { version = "*", default-features = false }
tokio = { version = "1", features = ["io-util", "macros", "net", "rt-multi-thread", "time"] }
tokio-serial = { version = "*", default-features = false }
tokio-util = { version = "*", features = ["codec"] }
