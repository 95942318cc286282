[package]
name = "woomer"
version = "0.1.0"
edition = "2021"
publish = false

[dependencies]
hyprland = "*"
raylib = { version = "5.5", features = ["wayland"] }
rustix = { version = "1", features = ["fs"] }
wayland-client = "0.31"
wayland-protocols = { version = "0.32", features = ["client", "unstable"] }
wayland-protocols-wlr = { version = "0.3", features = ["client"] }
