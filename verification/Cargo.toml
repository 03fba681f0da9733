[package]
name = "rtabc"
version = "0.1.0"
edition = "2021"
publish = false

[dependencies]
image = { version = "*", default-features = false, features = ["png"] }
tokio = { version = "1", features = ["full"] }
ringbuf = "0.4"
cpal = "*"
enigo = "0.1.2"
local-ip-address = "*"
windows = { version = "*", features = ["Win32_Foundation", "Win32_Media_Audio", "Win32_Media_Audio_Endpoints", "Win32_System_Com", "Win32_UI_WindowsAndMessaging"] }
ruopus = "*"
