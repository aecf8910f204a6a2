[package]
name = "umbrella"
version = "0.1.0"
edition = "2021"
publish = false

[dependencies]
ansi-parser = "*"
html-escape = "*"
serde_json = "*"
color-eyre = { version = "*", default-features = false }
thiserror = "*"
