[package]
name = "rut_io_example"
version = "0.1.0"
edition = "2021"
publish = false

[dependencies]
libc = "0.2"
io-uring = "0.7"
nix = { version = "0.29", features = ["event"] }
