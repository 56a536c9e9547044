[package]
name = "papers"
version = "0.1.0"
edition = "2021"
publish = false

[dependencies]
tera = { version = "=2.4.0", features = ["preserve_order"] }
serde_json = "=1.0.151"
mktemp = "=0.5.1"
