[package]
name = "st7789v2"
version = "0.1.0"
edition = "2021"
publish = false

[dependencies]
cortex-m = "0.7"
cortex-m-rt = "0.7"
defmt = "0.3"
defmt-rtt = "0.4"
panic-probe = "0.3"
embedded-graphics = "0.8"
stm32f4xx-hal = { version = "0.21", features = ["stm32f411"] }
