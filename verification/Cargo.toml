[package]
name = "attiny85"
version = "0.1.0"
edition = "2021"
publish = false

[dependencies]
avr-device = { version = "0.5", features = ["attiny85"] }
ufmt = "0.2"
