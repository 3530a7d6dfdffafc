[package]
name = "markdownfs"
version = "0.1.0"
edition = "2021"
publish = false

[dependencies]
fuse = "=0.3.1"
libc = "=0.2.190"
log = "=0.3.9"
time = "=0.1.45"
