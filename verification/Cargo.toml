[package]
name = "many_comments"
version = "0.1.0"
edition = "2021"
publish = false

[dependencies]
dlopen = "*"
dlopen_derive = "*"
log = "0.4"
serde = { version = "1", features = ["derive"] }
