[package]
name = "n64_slides"
version = "0.1.0"
edition = "2021"
publish = false

[dependencies]
volatile = "0.2"
rs64-periph = "*"
rs64-rt = "*"
panic-halt = "*"
