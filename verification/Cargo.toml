[package]
name = "unsegen"
version = "0.3.0"
edition = "2021"
publish = false

[dependencies]
unicode-segmentation = "=1.13.3"
unicode-width = "=0.1.14"
termion = "=4.0.6"
ndarray = "=0.17.2"
smallvec = "=1.16.4"
ropey = "=1.6.1"
libc = "=0.2.191"
nix = { version = "=0.31.3", features = ["signal", "process"] }
raw_tty = "=0.1.0"
