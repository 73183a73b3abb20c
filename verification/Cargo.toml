[package]
name = "ntex_driver"
version = "0.1.0"
edition = "2021"
publish = false

[dependencies]
slab = "=0.4.12"
ntex-neon = "=0.1.0"
libc = "=0.2.191"
log = "=0.4.35"
