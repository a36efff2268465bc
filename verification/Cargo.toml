[package]
name = "history_finder"
version = "0.1.0"
edition = "2021"
publish = false

[dependencies]
serde_json = "*"
ratatui = "*"
crossterm = "*"
copypasta = "*"
directories = "*"
