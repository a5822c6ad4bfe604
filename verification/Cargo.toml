[package]
name = "matios_host"
version = "0.1.0"
edition = "2021"
publish = false

[dependencies]
console = "0.15"
once_cell = "1"
os-version = "*"
windows-sys = { version = "0.60", features = ["Win32_Foundation", "Win32_UI_WindowsAndMessaging", "Win32_Graphics_Gdi", "Win32_System_Memory", "Win32_System_Threading", "Win32_System_LibraryLoader"] }
