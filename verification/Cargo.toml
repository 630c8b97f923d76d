[package]
name = "sigconsole"
version = "0.1.0"
edition = "2021"
publish = false

[dependencies]
libmem = { version = "=5.1.4", default-features = false }
mlua = { version = "=0.12.2", features = ["lua54", "vendored"] }
rustyline = "=19.0.0"
windows = { version = "0.58", features = ["Win32_Foundation", "Win32_System_Console", "Win32_System_SystemServices"] }
