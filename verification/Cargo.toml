[package]
name = "mmapfile"
version = "0.1.0"
edition = "2021"
publish = false

[dependencies]
mmarinus = "*"
bytemuck = "*"

[dev-dependencies]
bincode = "1"
