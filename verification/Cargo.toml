[package]
name = "planets"
version = "0.1.0"
edition = "2021"
publish = false

[dependencies]
blue_engine = "*"
blue_engine_utilities = "*"
user32-sys = "0.2"
winapi = { version = "0.3", features = ["winuser"] }
