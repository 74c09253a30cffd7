[package]
name = "letschat"
version = "0.1.0"
edition = "2021"
publish = false

[dependencies]
aes = "0.8"
base64 = "0.22"
iced = { version = "0.13", default-features = false, features = ["tiny-skia", "tokio"] }
tokio = { version = "1", features = ["rt-multi-thread", "macros"] }
