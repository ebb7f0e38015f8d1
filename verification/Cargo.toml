[package]
name = "bselect"
version = "0.1.0"
edition = "2021"
publish = false

[dependencies]
clap = { version = "*", features = ["derive"] }
dialoguer = "*"
directories = "*"
gix = "*"
regex = "*"
serde = { version = "*", features = ["derive"] }
serde_json = "*"
