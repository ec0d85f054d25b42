[package]
name = "memory_management"
version = "0.1.0"
edition = "2021"
publish = false

[dependencies]
libc = "=0.2.191"
log = "=0.4.35"
winapi = { version = "=0.3.9", features = ["errhandlingapi", "memoryapi", "minwindef", "sysinfoapi", "winerror", "winnt"] }
