[package]
name = "aythya"
version = "0.1.0"
edition = "2021"
publish = false

[dependencies]
bytemuck = "=1.25.2"
slint = { version = "=1.18.1", default-features = false, features = ["std", "compat-1-2"] }
rfd = { version = "=0.14.1", default-features = false, features = ["xdg-portal", "tokio"] }
