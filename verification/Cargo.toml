[package]
name = "litenote"
version = "0.1.0"
edition = "2021"
publish = false

[dependencies]
pulldown-cmark = { version = "=0.11.3", default-features = false }
docx-rs = "=0.4.22"
serde_json = "=1.0.154"
eframe = { version = "=0.27.2", default-features = false, features = ["glow"] }
rfd = "=0.14.1"
