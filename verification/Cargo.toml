[package]
name = "vimeo_fetch"
version = "0.1.0"
edition = "2021"
publish = false

[dependencies]
html-escape = "0.2"
url = "2"
ureq = "2"
clap = { version = "4", features = ["derive"] }
indicatif = "0.17"
eyre = "0.6"

[dev-dependencies]
base64 = "0.22"
