[package]
name = "curve_acir"
version = "0.1.0"
edition = "2021"
publish = false

[dependencies]
acvm = "0.27"
ark-bn254 = "0.4"
ark-ff = "0.4"
