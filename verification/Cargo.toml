[package]
name = "glap"
version = "0.1.0"
edition = "2021"
publish = false

[dependencies]
color-eyre = "*"
crossterm = "*"
dirs = "*"
ratatui = "*"
ratatui-explorer = "*"
sdl2 = "*"
serde = { version = "*", features = ["derive"] }
symphonia = "*"
toml = "*"
