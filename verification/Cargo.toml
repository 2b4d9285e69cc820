[package]
name = "onetcli"
version = "0.1.0"
edition = "2021"
publish = false

[dependencies]
sqlparser = "*"
semver = "1"
http = "1"
serde = { version = "1", features = ["derive"] }
serde_json = "1"
anyhow = "1"
