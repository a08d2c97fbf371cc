[package]
name = "pokedex_tui"
version = "0.1.0"
edition = "2021"
publish = false

[dependencies]
unicode-width = "*"
ratatui = "*"
serde_json = "*"
dirs = "*"
chrono = "*"
crossterm = "*"
