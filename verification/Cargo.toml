[package]
name = "sheet_wizard"
version = "0.1.0"
edition = "2021"
publish = false

[dependencies]
unidecode = "*"
calamine = "*"
comfy-table = "*"
crossterm = "*"
ratatui = "*"
serde_json = "*"
unicode-width = "*"
