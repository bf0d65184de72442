[package]
name = "usb_monitor_switcher"
version = "0.1.0"
edition = "2021"
publish = false

[dependencies]
hidapi = "2"
serde = { version = "1", features = ["derive"] }
toml = "0.8"
tray-icon = "*"
windows = { version = "0.52", features = ["Win32_Foundation", "Win32_Graphics_Gdi", "Win32_System_LibraryLoader", "Win32_UI_WindowsAndMessaging"] }
