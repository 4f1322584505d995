[package]
name = "stackable_agent"
version = "0.1.0"
edition = "2021"
publish = false

[dependencies]
handlebars = "4"
regex = "1"
url = "2"
oci-distribution = "0.6"
anyhow = "1"
log = "0.4"
env_logger = "0.9"
tokio = { version = "1", features = ["full"] }
nix = "0.22"
hostname = "0.3"
shellexpand = "2"
serde = { version = "1", features = ["derive"] }
serde_json = "1"
flate2 = "1"
tar = "0.4"
reqwest = { version = "0.11", features = ["json"] }
dirs = "3"
Inflector = "0.11"
