[package]
name = "ponto"
version = "0.1.0"
edition = "2021"
publish = false

[dependencies]
anyhow = "*"
clap = { version = "*", features = ["derive"] }
evalexpr = "*"
handlebars = "*"
handlebars_misc_helpers = { version = "*", default-features = false }
log = "*"
serde = { version = "*", features = ["derive"] }
serde_yaml = "*"
shellexpand = "*"
simple_logger = "*"
