[package]
name = "grapes"
version = "0.1.0"
edition = "2021"
publish = false

[dependencies]
fontdue = "0.9"
libc = "0.2"
raw-window-handle = "0.6"
thiserror = "2"
x11-dl = "2.21"
