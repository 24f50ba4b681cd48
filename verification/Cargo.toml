[package]
name = "oxidelink"
version = "0.1.0"
edition = "2021"
publish = false

[dependencies]
byteorder = "=1.5.0"
crc32fast = "=1.5.4"
dirs-next = "=2.0.0"
hidapi = { version = "=2.6.7", default-features = false, features = ["linux-native-basic-udev"] }
log = "=0.4.35"
parking_lot = "=0.12.5"
regex = "=1.13.1"
sentry = { version = "=0.34.0", default-features = false, features = ["panic", "ureq"] }
serde = { version = "=1.0.229", features = ["derive"] }
serde_json = "=1.0.154"
tokio = { version = "=1.54.1", features = ["rt", "rt-multi-thread", "net", "time", "sync", "macros"] }
ureq = { version = "=2.12.1", default-features = false, features = ["tls"] }
windows-sys = { version = "=0.59.0", features = ["Win32_Devices_Bluetooth", "Win32_Devices_DeviceAndDriverInstallation", "Win32_Foundation", "Win32_Security", "Win32_Storage_FileSystem", "Win32_System_EventLog", "Win32_System_IO", "Win32_System_Registry", "Win32_System_Threading", "Win32_UI_Input_KeyboardAndMouse"] }
