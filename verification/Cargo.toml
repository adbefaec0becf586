[package]
name = "morse_button"
version = "0.1.0"
edition = "2021"
publish = false

[dependencies]
heapless = "=0.7.17"
embedded-hal = "=0.2.7"
cortex-m = "=0.7.10"
cortex-m-rt = "=0.7.7"
rp2040-hal = "=0.8.2"
rp-pico = "=0.7.0"
usb-device = "=0.2.9"
usbd-serial = "=0.1.1"
panic-halt = "=0.2.0"
