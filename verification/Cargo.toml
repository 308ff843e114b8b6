[package]
name = "async_virtio_driver"
version = "0.1.0"
edition = "2021"
publish = false

[dependencies]
volatile = "0.3"
spin = "0.9"
