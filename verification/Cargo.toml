[package]
name = "color_utils"
version = "0.1.0"
edition = "2021"
publish = false

[dependencies]
anyhow = "1"
clap = { version = "4", features = ["derive"] }
cssparser = "*"
cssparser-color = "*"
env_logger = "*"
log = "0.4"
palette = "0.7"
termcolor = "1"
