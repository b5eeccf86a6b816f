[package]
name = "udiffx"
version = "0.1.0"
edition = "2021"
publish = false

[dependencies]
diffy = "*"
markex = "*"
simple-fs = "*"
twox-hash = "*"

[dev-dependencies]
regex = "*"
