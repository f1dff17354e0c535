[package]
name = "veloq_driver"
version = "0.1.0"
edition = "2021"
publish = false

[dependencies]
slotmap = "1"
rustc-hash = "2"
crossbeam-queue = "0.3"
io-uring = "0.7"
libc = "0.2"
clap = { version = "4", features = ["derive"] }
windows-sys = { version = "0.61", features = ["Win32_Foundation", "Win32_Networking_WinSock", "Win32_System_IO", "Win32_Storage_FileSystem", "Win32_System_Threading", "Win32_Security"] }
