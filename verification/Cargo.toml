[package]
name = "proxifyre"
version = "0.1.0"
edition = "2021"
publish = false

[dependencies]
anyhow = "1"
async-trait = "0.1"
chrono = "0.4"
crossterm = "*"
log = "0.4"
ndisapi = "*"
ratatui = "*"
serde = { version = "1", features = ["derive"] }
smoltcp = "0.12"
socket2 = "*"
tokio = { version = "1", features = ["full"] }
toml = "*"
windows = { version = "*", features = ["Win32_Foundation", "Win32_NetworkManagement_IpHelper", "Win32_NetworkManagement_Ndis", "Win32_Networking_WinSock", "Win32_System_ProcessStatus", "Win32_System_Threading", "Win32_System_IO", "Win32_Security"] }
