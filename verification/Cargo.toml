[package]
name = "microbit_music_tui"
version = "0.1.0"
edition = "2021"
publish = false

[dependencies]
anyhow = "1"
hound = "3.5"
ratatui = "0.29"
serialport = { version = "4", default-features = false }
