[package]
name = "aggregation_lib"
version = "0.1.0"
edition = "2021"
publish = false

[dependencies]
sha2 = "=0.10.9"
hex = "=0.4.3"
sp1-zkvm = { version = "=6.8.1", features = ["verify"] }
