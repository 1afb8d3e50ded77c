[package]
name = "relint"
version = "0.1.0"
edition = "2021"
publish = false

[dependencies]
toml = { version = "*", features = ["preserve_order"] }
grep = "*"
globset = "*"
ignore = "*"
clap = "2.34"
atty = "*"
