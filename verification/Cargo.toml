[package]
name = "gcast"
version = "0.1.0"
edition = "2021"
publish = false

[dependencies]
byteorder = "=1.5.0"
json = "=0.12.4"
uuid = "=1.29.0"
mio = "=0.6.23"
openssl = "=0.10.81"
libc = "=0.2.191"
mdns = "0.2"

[dev-dependencies]
protobuf = "=2.28.0"
