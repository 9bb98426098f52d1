[package]
name = "theca"
version = "1.0.0"
edition = "2021"
publish = false

[dependencies]
docopt = "1"
libc = "0.2"
rand = "0.3"
regex = "1"
rust-crypto = "0.2"
rustc-serialize = "0.3"
serde = { version = "1", features = ["derive"] }
tempdir = "0.3"
term = "0.7"
time = "0.2"
