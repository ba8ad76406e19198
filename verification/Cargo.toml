[package]
name = "anodium"
version = "0.1.0"
edition = "2021"
publish = false

[dependencies]
xcursor = "0.3"
thiserror = "1"
smithay = { version = "*", default-features = false }
