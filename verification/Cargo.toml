[package]
name = "esp_sender"
version = "0.1.0"
edition = "2021"
publish = false

[dependencies]
hmac = "0.12"
sha2 = "0.10"
hex = "0.4"
rand = "0.9"
chrono = "0.4"
serde = { version = "1", features = ["derive"] }
serde_json = "1"
salah = "*"
sysinfo = "0.33"
mdns-sd = "*"
serialport = "4"
nvml-wrapper = "*"
winapi = { version = "0.3", features = ["winuser", "wincon", "consoleapi"] }
eframe = { version = "0.31", default-features = false, features = ["glow", "default_fonts"] }
winit = { version = "0.30", default-features = false }
