[package]
name = "html_view"
version = "0.1.0"
edition = "2021"
publish = false

[dependencies]
uuid = { version = "*", features = ["v4"] }
base64 = "*"
url = "*"
clap = { version = "*", features = ["derive"] }
