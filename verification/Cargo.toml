[package]
name = "sv"
version = "0.1.0"
edition = "2021"
publish = false

[dependencies]
anyhow = "=1.0.104"
clap = { version = "=4.6.7", features = ["derive"] }
clap-markdown = "=0.1.5"
hcl-rs = "=0.19.9"
merge-yaml-hash = "=0.4.0"
oapi = "=0.1.2"
openapiv3 = "=2.2.0"
self_update = "=1.3.2"
serde_json = "=1.0.154"
serde_yaml = "=0.9.34"
simplelog = { version = "=0.12.2", features = ["paris"] }
sppparse = "=0.1.4"
temp-file = "=0.2.0"
