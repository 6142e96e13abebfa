[package]
name = "sirula"
version = "0.1.0"
edition = "2021"
publish = false

[dependencies]
fuzzy-matcher = "*"
gtk4 = "*"
relm4 = "*"
once_cell = "*"
directories = "*"
serde = { version = "*", features = ["derive"] }
toml = "*"
