[package]
name = "postprocessor"
version = "0.1.0"
edition = "2021"
publish = false

[dependencies]
base64 = "0.13"
byteorder = "1"
clap = "2"
libflate = "1"
lz4 = "1"
snap = "1"
xz2 = "0.1"
zstd = "*"
