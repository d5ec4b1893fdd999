[package]
name = "composable_allocators"
version = "0.1.0"
edition = "2021"
publish = false

[dependencies]
const-default = "=1.0.0"
libc = "=0.2.191"
print-no-std = "=0.3.0"
winapi = { version = "=0.3.9", features = ["heapapi", "minwindef", "ntdef", "winnt"] }
