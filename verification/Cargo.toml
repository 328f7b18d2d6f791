[package]
name = "lg_ultragear"
version = "0.1.0"
edition = "2021"
publish = false

[dependencies]
regex = "1"
serde = { version = "1", features = ["derive"] }
toml = "0.8"
chrono = "0.4"
clap = { version = "4", features = ["derive"] }
crossterm = "0.28"
log = "0.4"
env_logger = "0.11"
wmi = "0.14"
winlog = "0.2"
windows = { version = "0.58", features = ["Win32_Foundation", "Win32_Graphics_Gdi", "Win32_Devices_Display", "Win32_System_Console", "Win32_Security", "Win32_System_Threading", "Win32_UI_Shell", "Win32_UI_WindowsAndMessaging", "Data_Xml_Dom", "UI_Notifications"] }
