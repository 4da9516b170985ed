[package]
name = "eva_ics"
version = "0.1.0"
edition = "2021"
publish = false

[dependencies]
eva-common = { version = "=0.4.9", features = ["acl", "events"] }
shlex = "=2.0.1"
hex = "=0.4.3"
base64 = "=0.23.1"
ring = "=0.17.14"
openssl = "=0.10.82"
cookie = "=0.18.2"
serde = { version = "=1.0.229", features = ["derive"] }
serde_json = "=1.0.154"
chrono = "=0.4.45"
uuid = { version = "=1.29.0", features = ["v4"] }
gettext = "=0.4.0"
rmodbus = "=0.13.0"
clap = { version = "=4.6.7", features = ["derive"] }
lettre = "=0.11.23"
urlencoding = "=2.1.3"
eva-sdk = { version = "=0.4.6", default-features = false }
eva-client = { version = "*", default-features = false }
