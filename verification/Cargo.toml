[package]
name = "micro_qr"
version = "0.1.0"
edition = "2021"
publish = false

[dependencies]
clap = { version = "*", features = ["derive"] }
regex = "*"
image = "*"

[dev-dependencies]
bitstream-io = "*"
