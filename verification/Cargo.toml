[package]
name = "kairo-core"
version = "0.1.0"
edition = "2021"
publish = false

[dependencies]
freedesktop-desktop-entry = "0.7"
mime = "0.3"
shell-words = "1"
unicode-segmentation = "1"
url = "2"
anyhow = "1"
clap = { version = "4", features = ["derive"] }
clap-verbosity-flag = "*"
console = "*"
dialoguer = "*"
freedesktop-icons = "*"
log = "0.4"
pretty_env_logger = "*"
thiserror = "*"
