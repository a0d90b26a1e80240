[package]
name = "serial_link"
version = "0.1.0"
edition = "2021"
publish = false

[dependencies]
chrono = { version = "0.4", default-features = false }
corncobs = "0.1"
crc = "3"
fugit = "0.3"
nb = "1"
rgb = "0.8"
serial2 = "0.2"
smart-leds = "0.4"
ssmarshal = "1"

[dev-dependencies]
serde = "1"
