[package]
name = "kernel"
version = "0.1.0"
edition = "2021"
publish = false

[dependencies]
bootloader_api = "=0.11.17"
lazy_static = { version = "=1.5.1", features = ["spin_no_std"] }
libm = "=0.2.16"
pc-keyboard = "=0.7.0"
pic8259 = "=0.11.0"
spin = "=0.9.9"
uart_16550 = "=0.3.2"
volatile = "=0.2.7"
x86_64 = { version = "=0.15.5", default-features = false, features = ["instructions"] }
