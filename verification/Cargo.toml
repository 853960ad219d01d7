[package]
name = "script_ffi"
version = "0.1.0"
edition = "2021"
publish = false

[dependencies]
libffi-sys = "2"
v8 = "0"
winapi = { version = "0.3", features = ["libloaderapi"] }
