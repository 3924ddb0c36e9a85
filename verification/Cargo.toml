[package]
name = "rusty_twinkle_tray"
version = "0.1.0"
edition = "2021"
publish = false

[dependencies]
log = "=0.4.35"
windows = { version = "=0.58.0", features = ["Win32_Foundation", "Win32_Globalization", "Win32_Devices_Display", "Win32_Graphics_Gdi", "Win32_Storage_FileSystem", "Win32_System_IO", "Win32_System_Registry", "Win32_System_Threading", "Win32_Security"] }
