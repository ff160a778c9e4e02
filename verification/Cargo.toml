[package]
name = "rcore_n"
version = "0.1.0"
edition = "2021"
publish = false

[dependencies]
smoltcp = { version = "=0.10.0", default-features = false, features = ["alloc", "medium-ethernet", "proto-ipv4", "socket-tcp"] }
xmas-elf = "=0.9.1"
bit_field = "=0.10.3"
bytemuck = "1"
