[package]
name = "devkit"
version = "0.9.2"
edition = "2021"
publish = false

[dependencies]
anyhow = "1"
clap = { version = "4", features = ["derive"] }
dirs = "5"
flate2 = "1"
indicatif = "0.17"
regex = "1"
serde_json = "1"
tar = "0.4"
tempfile = "3"
ureq = { version = "2", features = ["json"] }
which = "6"
xz2 = "0.1"
zip = "2"
winreg = "0.52"
windows-sys = { version = "0.59", features = ["Win32_Foundation", "Win32_UI_WindowsAndMessaging"] }
