[package]
name = "complate"
version = "0.14.0"
edition = "2021"
publish = false

[dependencies]
anyhow = "1"
clap = "4"
clap_complete = "4"
clap_mangen = "0.2"
clap-markdown = "0.1"
dialoguer = "0.11"
fancy-regex = "0.14"
handlebars = "6"
schemars = "0.8"
serde = { version = "1", features = ["derive"] }
serde_json = "1"
serde_yaml = "0.9"
thiserror = "1"
