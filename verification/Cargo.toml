[package]
name = "fpm"
version = "0.1.0"
edition = "2021"
publish = false

[dependencies]
clap = { version = "4", features = ["cargo"] }
console = "*"
dialoguer = "*"
dirs = "*"
eyre = "*"
fs-err = "*"
indicatif = "*"
serde = { version = "1", features = ["derive"] }
serde_yaml = "*"
thiserror = "*"
toml = "*"
turbosql = "*"
