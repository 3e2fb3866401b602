[package]
name = "uv_nix"
version = "0.1.0"
edition = "2021"
publish = false

[dependencies]
sha2 = "*"
semver = "*"
toml = "*"
toml_edit = "*"
owo-colors = "*"
serde = { version = "*", features = ["derive"] }
serde_json = "*"
anyhow = "*"
walkdir = "*"
rayon = "*"
console = "*"
tracing = "*"
tracing-subscriber = "*"
fs-err = "*"
