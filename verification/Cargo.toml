[package]
name = "gregory"
version = "0.1.0"
edition = "2021"
publish = false

[dependencies]
wmidi = "4"
midir = "0.10"
ringbuf = "0.4"
hound = "3"
serde = { version = "1", features = ["derive"] }
toml = "0.9"
clap = { version = "4", features = ["derive"] }
egui = { version = "0.32", default-features = false, features = ["default_fonts"] }
