[package]
name = "tetris_cli"
version = "0.1.0"
edition = "2021"
publish = false

[dependencies]
rand = "0.8"
serde = { version = "1", features = ["derive"] }
confy = "0.4"
termion = "1.5"
