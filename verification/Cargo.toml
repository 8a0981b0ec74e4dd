[package]
name = "hypr-configurator"
version = "0.1.0"
edition = "2021"
publish = false

[dependencies]
gtk4 = "*"
libadwaita = { version = "*", features = ["v1_2"] }
dirs = "*"
serde = { version = "1", features = ["derive"] }
serde_json = "1"
