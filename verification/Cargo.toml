[package]
name = "airsim_client"
version = "0.1.0"
edition = "2021"
publish = false

[dependencies]
async-std = "=1.13.2"
msgpack-rpc = "=0.4.2"
nalgebra = "=0.35.0"
rmp-rpc = "=0.2.0"
rmpv = "=1.3.1"
