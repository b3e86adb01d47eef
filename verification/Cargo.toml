[package]
name = "interstice"
version = "0.1.0"
edition = "2021"
publish = false

[dependencies]
unicode-width = "0.2"
semver = "1"
cuid2 = "*"
rand = "0.8"
serde = { version = "1", features = ["derive"] }
serde_json = "1"
toml = "0.8"
clipboard = "0.5"
