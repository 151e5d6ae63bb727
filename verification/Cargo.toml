[package]
name = "klaw-gui"
version = "0.1.0"
edition = "2021"
publish = false

[dependencies]
serde_json = "=1.0.154"
time = "=0.3.55"
chrono = "=0.4.45"
egui_term = "*"
