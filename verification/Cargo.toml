[package]
name = "tdos"
version = "0.1.0"
edition = "2021"

[dependencies]
volatile = "=0.2.7"
lazy_static = "=1.5.1"
spin = "=0.5.2"
