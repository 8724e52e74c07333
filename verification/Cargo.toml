[package]
name = "caffeinate"
version = "0.1.0"
edition = "2021"
publish = false

[dependencies]
tray-icon = "0.21"
windows-sys = { version = "0.60", features = ["Win32_Foundation", "Win32_Globalization", "Win32_Security", "Win32_System_DataExchange", "Win32_System_LibraryLoader", "Win32_System_Power", "Win32_System_Threading", "Win32_UI_WindowsAndMessaging"] }
