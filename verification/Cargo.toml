[package]
name = "schorl"
version = "0.2.0"
edition = "2021"
publish = false

[dependencies]
uuid = { version = "1", features = ["v7"] }
ash = "0.38"
openxr = "*"
libc = "0.2"
rustix = { version = "1", features = ["event", "fs", "mm"] }
wayland-client = "0.31"
wayland-protocols-wlr = { version = "0.3", features = ["client"] }
smithay = { version = "0.7", default-features = false, features = ["wayland_frontend", "desktop", "backend_winit", "renderer_gl"] }
