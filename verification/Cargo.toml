[package]
name = "fcd"
version = "0.1.0"
edition = "2021"
publish = false

[dependencies]
regex = "=1.13.1"
path-clean = "=1.0.1"
pathdiff = "=0.2.3"
caseless = "=0.2.2"
unicode-normalization = "=0.1.26"
unicode-width = "=0.2.3"
natord = "=1.0.9"
fuzzy-matcher = "=0.3.7"
atomicwrites = "=0.4.4"
crossbeam-channel = "=0.5.17"
tempfile = "=3.27.0"
wait-timeout = "=0.2.1"
rustix = { version = "=1.1.6", features = ["fs"] }
uzers = "=0.12.2"
libc = "=0.2.191"
anyhow = "=1.0.104"
clap = { version = "=4.6.7", features = ["derive"] }
termion = "=4.0.6"
shlex = "1"
nucleo-matcher = "0.3"
