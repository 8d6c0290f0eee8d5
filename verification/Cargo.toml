[package]
name = "conswol"
version = "0.1.0"
edition = "2021"
publish = false

[dependencies]
regex = "1"
serde = { version = "1", features = ["derive"] }
serde_derive = "1"
toml = "0.5"
tui = "0.6"
termion = "1.5"
