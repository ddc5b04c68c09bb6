[package]
name = "tavoo"
version = "0.1.0"
edition = "2021"
publish = false

[dependencies]
memchr = "=2.8.3"
arrayvec = "=0.7.8"
fxhash = "=0.2.1"
thiserror = "1"
