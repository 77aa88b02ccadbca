[package]
name = "ttest"
version = "0.1.0"
edition = "2021"
publish = false

[dependencies]
bstr = "1"
shell-words = "1"
clap = { version = "4", features = ["derive"] }
serde = { version = "1", features = ["derive"] }
toml_edit = { version = "0.19", features = ["serde"] }
