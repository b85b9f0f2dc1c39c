[package]
name = "image_viewer"
version = "2.1.1"
edition = "2021"
publish = false

[dependencies]
image = { version = "0.23", default-features = false, features = ["gif", "jpeg", "png", "bmp", "ico", "pnm", "tga"] }
ctrlc = "3"
dirs = "*"
