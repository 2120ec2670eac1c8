[package]
name = "ohmyblog"
version = "0.1.0"
edition = "2021"
publish = false

[dependencies]
async-std = { version = "=1.13.2", features = ["attributes"] }
async-trait = "=0.1.92"
base64 = "=0.23.1"
clap = "=4.6.7"
comrak = "=0.56.0"
git2 = "=0.21.0"
regex = "=1.13.1"
rexiv2 = "=0.10.0"
serde = { version = "=1.0.229", features = ["derive"] }
serde_json = { version = "=1.0.151", features = ["preserve_order"] }
shellexpand = "=3.1.2"
tera = { version = "=2.4.0", features = ["glob_fs", "preserve_order"] }
tide = "=0.16.0"
tide-rustls = "=0.3.0"
walkdir = "=2.5.0"
