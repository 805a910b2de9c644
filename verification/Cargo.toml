[package]
name = "rustdesk_clipboard"
version = "0.1.0"
edition = "2021"
publish = false

[dependencies]
uuid = "=1.29.0"
arboard = "=3.7.0"
clipboard-master = "=4.1.0"
lazy_static = "=1.5.1"
bytes = "=1.12.1"
x11rb = "=0.14.0"
wl-clipboard-rs = "=0.9.5"
winapi = { version = "=0.3.9", features = ["winuser"] }
cocoa = "=0.27.0"
