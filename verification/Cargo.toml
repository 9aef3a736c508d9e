[package]
name = "mprisence"
version = "0.1.0"
edition = "2021"
publish = false

[dependencies]
regex = "=1.13.1"
url = "=2.5.8"
blake3 = "=1.8.7"
urlencoding = "=2.1.3"
serde = { version = "=1.0.229", features = ["derive"] }
serde_json = "=1.0.154"
toml = "=1.1.8"
clap = { version = "=4.6.7", features = ["derive"] }
dirs = "=7.0.0"
base64 = "=0.22.1"
sha256 = "=1.6.0"
strsim = "=0.11.1"
toml_edit = "*"
tiny_http = "*"
