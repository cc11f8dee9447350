[package]
name = "framed_rpc"
version = "0.1.0"
edition = "2021"
publish = false

[dependencies]
byteorder = "1"
crc = "1"
crossbeam-utils = "0.8"
log = "0.4"
num_cpus = "1"
rmp-serde = "1"
scheduled-thread-pool = "0.2"
serde = "1"
