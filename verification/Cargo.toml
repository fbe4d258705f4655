[package]
name = "simd_intrinsics"
version = "0.1.0"
edition = "2021"
publish = false

[dependencies]
base64 = "0.13"
itertools = "=0.15.0"
md5 = "=0.8.1"
memchr = "=2.8.3"
regex = "=1.13.1"
smallvec = "1"
