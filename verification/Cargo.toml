[package]
name = "brotli_cli"
version = "0.1.0"
edition = "2021"
publish = false

[dependencies]
brotli-decompressor = "2.3"
alloc-no-stdlib = "2.0"
