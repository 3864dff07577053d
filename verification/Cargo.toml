[package]
name = "easy_pw"
version = "0.1.0"
edition = "2021"
publish = false

[dependencies]
pipewire = "*"
libspa = "*"
futures = "*"
log = "*"
thiserror = "*"
