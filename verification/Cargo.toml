[package]
name = "qompute"
version = "0.1.0"
edition = "2021"
publish = false

[dependencies]
auto_ops = "0.3"
num = "0.4"
once_cell = "1"
slice-of-array = "*"
smallvec = "1"
thiserror = "1"
