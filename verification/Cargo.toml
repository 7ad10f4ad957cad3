[package]
name = "chronos_fm"
version = "0.1.0"
edition = "2021"
publish = false

[dependencies]
toml_edit = "=0.25.18"
time = "=0.3.55"
url = "=2.5.8"
serde_json = "=1.0.154"
walkdir = "=2.5.0"
users = "=0.11.0"
oo7 = "*"
anyhow = "*"
