[package]
name = "nuedc"
version = "0.1.0"
edition = "2021"
publish = false

[dependencies]
defmt = "=1.2.0"
embassy-sync = { version = "=0.8.0", features = ["defmt"] }
embassy-time = { version = "=0.5.1", features = ["defmt"] }
embedded-io-async = "=0.7.0"
libm = "=0.2.16"
micromath = "=2.1.0"
pid = "=4.0.0"
