[package]
name = "wluma"
version = "0.1.0"
edition = "2021"
publish = false

[dependencies]
wayland-client = { version = "0.28", features = ["dlopen"] }
wayland-protocols = { version = "0.28", features = ["client", "unstable_protocols"] }
