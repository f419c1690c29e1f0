[package]
name = "rwmstatus"
version = "0.1.0"
edition = "2021"
publish = false

[dependencies]
chrono = "0.4"
chrono-tz = "0.8"
libc = "0.2"
x11 = { version = "2", features = ["xlib"] }
