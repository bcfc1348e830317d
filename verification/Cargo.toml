[package]
name = "nebula"
version = "0.1.0"
edition = "2021"
publish = false

[dependencies]
nucleo-matcher = "0.3"
unicase = "2"
unicode-segmentation = "1"
unicode-width = "*"
serde_json = "1"
toml_edit = "*"
lscolors = { version = "*", features = ["nu-ansi-term"] }
nu-ansi-term = "*"
notify = "*"
log = "0.4"
