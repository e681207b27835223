[package]
name = "dta4hana"
version = "0.1.0"
edition = "2021"
publish = false

[dependencies]
hmac-sha1 = "*"
base64 = "0.13"
uuid = { version = "*", features = ["v4"] }
ureq = { version = "2", default-features = false }
url = "2"
serde = { version = "1", features = ["derive"] }
serde_json = "1"
anyhow = "1"
log = "*"
env_logger = "*"
home = "*"
structopt = "0.3"
