[package]
name = "mtr"
version = "0.1.0"
edition = "2021"
publish = false

[dependencies]
chrono = "0.4"
clap = { version = "4", features = ["derive"] }
crossterm = "0.27"
dns-lookup = "2"
ratatui = "0.26"
socket2 = { version = "0.5", features = ["all"] }
windows-sys = { version = "0.52", features = ["Win32_Foundation", "Win32_NetworkManagement_IpHelper", "Win32_Networking_WinSock"] }
