[package]
name = "fib_stark"
version = "0.1.0"
edition = "2021"
publish = false

[dependencies]
ark-ff = "0.4.2"
ark-poly = "0.4.2"
pollster = "0.3.0"
