[package]
name = "startt"
version = "0.1.0"
edition = "2021"
publish = false

[dependencies]
dashmap = "6.1.0"
winapi = { version = "0.3.9", features = ["winuser", "windef", "minwindef", "handleapi", "processthreadsapi", "tlhelp32", "winnt"] }
