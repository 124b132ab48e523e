[package]
name = "zsat"
version = "0.1.0"
edition = "2021"
publish = false

[dependencies]
bit-set = "*"
itertools = "*"
json = "*"
num-traits = "*"
symbol-map = "*"
thiserror = "*"
user-error = "*"
