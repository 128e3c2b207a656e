[package]
name = "ws2812_pio"
version = "0.1.0"
edition = "2021"
publish = false

[dependencies]
pio = "0.2"
rp-pico = "0.9"
cortex-m = "0.7"
cortex-m-rt = "0.7"
embedded-hal = "0.2"
embedded-time = "0.12"
defmt = "0.3"
defmt-rtt = "0.4"
panic-probe = "0.3"
