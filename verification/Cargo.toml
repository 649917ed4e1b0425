[package]
name = "stm32-mdma"
version = "0.1.0"
edition = "2021"
publish = false

[dependencies]
cortex-m = "0.7"
embassy-sync = "0.6"
