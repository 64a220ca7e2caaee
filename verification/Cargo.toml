[package]
name = "timv"
version = "0.1.0"
edition = "2021"
publish = false

[dependencies]
clap = "3.2"
image = { version = "0.24", default-features = false, features = ["png", "jpeg", "gif", "bmp"] }
itertools = "0.10"
termion = "1.5"
