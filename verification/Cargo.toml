[package]
name = "rdpwrap"
version = "0.1.0"
edition = "2021"
publish = false

[dependencies]
winapi = { version = "0.3", features = ["basetsd", "fileapi", "handleapi", "heapapi", "libloaderapi", "memoryapi", "minwindef", "ntdef", "processthreadsapi", "tlhelp32", "winbase", "winerror", "winnt"] }
