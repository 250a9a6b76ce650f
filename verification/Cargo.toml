[package]
name = "lpm"
version = "0.1.0"
edition = "2021"
publish = false

[dependencies]
sha2 = "=0.10.9"
hex = "=0.4.3"
dirs = "=5.0.1"
full_moon = "=3.0.0"
globset = "=0.4.21"
serde = { version = "=1.0.229", features = ["derive"] }
serde_yaml = "=0.9.34"
serde_json = "1"
regex = "=1.13.1"
walkdir = "=2.5.0"
notify = "=6.1.1"
notify-debouncer-mini = "=0.4.1"
ctrlc = "=3.5.2"
