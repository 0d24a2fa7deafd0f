[package]
name = "nbt_codec"
version = "0.1.0"
edition = "2021"
publish = false

[dependencies]
byteorder = "1"
cesu8 = "1.1.0"
indexmap = "2"
strum_macros = "*"
thiserror = "*"
