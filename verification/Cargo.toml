[package]
name = "ssh_packet"
version = "0.1.0"
edition = "2021"
publish = false

[dependencies]
binrw = "0.14"
digest = "0.10"
futures = "0.3"
signature = "2"
thiserror = "1"
zeroize = "1"
