[package]
name = "custom_os"
version = "0.1.0"
edition = "2021"
publish = false

[dependencies]
lazy_static = "=1.5.1"
spin = "=0.12.3"
volatile = "=0.2.7"

[dependencies.x86_64]
version = "=0.14.13"
default-features = false
features = ["instructions"]
