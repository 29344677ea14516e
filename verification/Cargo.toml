[package]
name = "audio_switch"
version = "0.1.0"
edition = "2021"
publish = false

[dependencies]
crc16 = "=0.4.0"
defer = "=0.2.1"
env_logger = "=0.11.11"
log = "=0.4.35"
serde_json = "=1.0.154"
simple-error = "=0.3.3"
windows-core = "=0.62.2"
windows-registry = "=0.6.1"

[dependencies.windows]
version = "=0.62.2"
features = [
    "Win32_Devices_FunctionDiscovery",
    "Win32_Foundation",
    "Win32_Graphics_Gdi",
    "Win32_Media_Audio",
    "Win32_System_Com",
    "Win32_System_Com_StructuredStorage",
    "Win32_System_LibraryLoader",
    "Win32_System_Variant",
    "Win32_UI_Shell",
    "Win32_UI_Shell_PropertiesSystem",
    "Win32_UI_WindowsAndMessaging",
]
