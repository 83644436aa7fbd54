[package]
name = "avif_parse"
version = "1.0.0"
edition = "2021"
publish = false

[dependencies]
arrayvec = "0.7"
bitreader = "0.3"
byteorder = "1"
fallible_collections = "0.4"
leb128 = "0.2"
