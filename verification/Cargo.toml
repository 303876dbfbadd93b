[package]
name = "nextcore_ise"
version = "0.1.0"
edition = "2021"
publish = false

[dependencies]
bitflags = "2"
thiserror = "1"
