[package]
name = "selinur"
version = "0.1.0"
edition = "2021"
publish = false

[dependencies]
openat = "0.1"
nix = { version = "*", features = ["mount"] }
libc = "*"
errno = "*"
