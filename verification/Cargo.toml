[package]
name = "bulletrl"
version = "0.1.0"
edition = "2021"
publish = false

[dependencies]
byteorder = "1"
rand = "0.8"
log = "0.4"
env_logger = "0.10"
minifb = "0.24"
