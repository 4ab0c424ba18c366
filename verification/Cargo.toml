[package]
name = "tlcfi_assimilator"
version = "0.1.0"
edition = "2021"
publish = false

[dependencies]
chrono = "*"
json = "*"
pico-args = "*"
