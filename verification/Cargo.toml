[package]
name = "rocksdb_in_tikv"
version = "0.1.0"
edition = "2021"
publish = false

[dependencies]
byteorder = "*"
rand = "*"
rocksdb = "*"
toml = "*"
clap = "*"
libc = "*"
