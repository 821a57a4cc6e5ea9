[package]
name = "rusty_esp_knob"
version = "0.1.0"
edition = "2021"
publish = false

[dependencies]
cobs = "0.3"
heapless = { version = "0.8", features = ["serde"] }
embedded-graphics-core = "0.4"
postcard = { version = "1", default-features = false, features = ["alloc"] }
serde = { version = "1", features = ["derive"] }
clap = { version = "4", features = ["derive"] }
dirs = "5"
toml = "0.8"
serialport = { version = "4", default-features = false }
smoltcp = { version = "0.12", default-features = false, features = ["std", "medium-ethernet", "proto-ipv4", "proto-dhcpv4", "socket-tcp", "socket-dhcpv4"] }
libm = "0.2"
embedded-graphics = "0.8"
u8g2-fonts = { version = "0.4", features = ["embedded_graphics_textstyle"] }
embedded-storage = "0.3"
critical-section = "1"
static_cell = "2"
log = "0.4"
windows = { version = "0.58", features = ["Win32_Foundation", "Win32_Media_Audio", "Win32_System_Com", "Win32_System_Threading", "Win32_System_Console", "Win32_System_Registry", "Win32_Graphics_Gdi", "Win32_UI_WindowsAndMessaging"] }
tray-icon = "0.19"
