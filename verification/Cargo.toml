[package]
name = "sem-reg"
version = "0.1.0"
edition = "2021"
publish = false

[dependencies]
zerocopy = "0.7"
diff = "0.1"
anyhow = "1"
chrono = "0.4"
clap = { version = "4", features = ["derive"] }
colored = "2"
convert_case = "0.6"
ctrlc = "3"
futures = "0.3"
map-self = "*"
serde = { version = "1", features = ["derive"] }
serde_json = "1"
thiserror = "1"
windows = { version = "0.52", features = ["Win32_Foundation", "Win32_Security", "Win32_Security_Authorization", "Win32_System_Threading", "Win32_System_Console", "Win32_System_Power", "Win32_System_SystemServices", "Win32_UI_WindowsAndMessaging"] }
windows-helpers = "*"
winreg = "0.52"
wmi = "0.13"
