[package]
name = "osiris"
version = "0.1.0"
edition = "2021"
publish = false

[dependencies]
core_affinity = "0.8"
dns-protocol = "0.1"
fastrand = "2"
io-uring = "0.6"
libc = "0.2"
memchr = "2"
