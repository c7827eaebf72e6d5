[package]
name = "eventp"
version = "0.1.0"
edition = "2021"
publish = false

[dependencies]
libc = "=0.2.190"
nix = { version = "=0.31.3", features = ["event"] }
oneshot = { version = "=0.2.1", features = ["async", "std"] }
rustc-hash = "=2.1.3"
