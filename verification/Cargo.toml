[package]
name = "model_loader"
version = "0.1.0"
edition = "2021"
publish = false

[dependencies]
image = { version = "0.23", default-features = false, features = ["png", "jpeg"] }
log = "0.4"
wavefront_obj = "*"
zip = { version = "*", default-features = false, features = ["deflate"] }
