[package]
name = "ktapper"
version = "0.1.0"
edition = "2021"
publish = false

[dependencies]
random_word = { version = "*", features = ["de", "en", "es", "fr", "ja", "zh", "ru"] }
ratatui = "*"
directories-next = "*"
serde = { version = "*", features = ["derive"] }
toml = "*"
