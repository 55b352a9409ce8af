[package]
name = "serde_gettext"
version = "0.1.0"
edition = "2021"
publish = false

[dependencies]
gettext-rs = "*"
dynfmt = { version = "*", features = ["python"] }
libc-strftime = "*"
serde = { version = "*", features = ["derive"] }
serde_json = "*"
serde_yaml = "*"
