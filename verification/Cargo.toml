[package]
name = "mini-system-monitor"
version = "0.1.0"
edition = "2021"
publish = false

[dependencies]
base64 = "=0.22.1"
image = { version = "=0.25.10", default-features = false, features = ["png"] }
ab_glyph = "=0.2.32"
anyhow = "=1.0.104"
chrono = "=0.4.45"
env_logger = "=0.11.11"
log = "=0.4.35"
once_cell = "=1.21.4"
serde = { version = "=1.0.229", features = ["derive"] }
serde_json = "=1.0.154"
serde_yaml = "=0.9.34"
serialport = { version = "=4.10.1", default-features = false }
sysinfo = "=0.40.1"
ureq = { version = "=2.12.1", features = ["json"] }
wmi = "=0.18.4"
windows-sys = { version = "=0.61.2", features = ["Win32_Foundation", "Win32_Security", "Win32_System_Console", "Win32_System_Threading", "Win32_UI_WindowsAndMessaging"] }
tray-icon = "=0.26.1"
