[package]
name = "minidisc"
version = "0.1.0"
edition = "2021"
publish = false

[dependencies]
byteorder = "=1.5.0"
cbc = "=0.1.2"
cross_usb = "=0.4.1"
des = "=0.8.1"
diacritics = "=0.2.2"
ecb = "=0.1.2"
encoding_rs = "=0.8.42"
rand = "=0.9.5"
regex = "=1.13.1"
tokio = { version = "=1.54.1", features = ["sync", "rt", "rt-multi-thread", "macros"] }
unicode-jp = "*"
unicode-normalization = "=0.1.26"
