[package]
name = "kyuri"
version = "0.2.0"
edition = "2021"
publish = false

[dependencies]
unicode-width = "*"
libc = "0.2"
windows-sys = { version = "*", features = ["Win32_Foundation", "Win32_System_Console"] }
