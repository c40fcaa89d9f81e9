[package]
name = "playa"
version = "0.1.0"
edition = "2021"
publish = false

[dependencies]
infer = "*"
walkdir = "*"
trash = "*"
image = { version = "*", default-features = false, features = ["png", "jpeg", "gif", "webp"] }
reqwest = { version = "*", default-features = false, features = ["blocking"] }
regex = "*"
