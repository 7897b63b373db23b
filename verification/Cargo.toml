[package]
name = "ngx_mixer"
version = "0.1.0"
edition = "2021"
publish = false

[dependencies]
base64 = "0.13"
protobuf = "2"
lazy_static = "1"
