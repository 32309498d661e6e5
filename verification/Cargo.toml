[package]
name = "throughput"
version = "0.1.0"
edition = "2021"
publish = false

[dependencies]
bincode = "1.3"
clap = "3.2"
hex = "0.4"
ifstructs = "*"
libc = "0.2"
nix = { version = "0.26", default-features = false, features = ["time"] }
signal-hook = "0.3"
socket = "*"
