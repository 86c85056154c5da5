[package]
name = "regexfs"
version = "0.1.0"
edition = "2021"
publish = false

[dependencies]
regex = "1"
fuse = "0.3"
libc = "0.2"
time = "0.1"
env_logger = "0.7"
