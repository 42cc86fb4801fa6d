[package]
name = "comphwde"
version = "0.1.0"
edition = "2021"
publish = false

[dependencies]
hk-parser = "=0.3.2"
indexmap = "=2.14.2"
serde = { version = "1", features = ["derive"] }
serde_json = "1"
dirs = "*"
libc = "0.2"
chrono = "0.4"
anyhow = "1"
thiserror = "*"
tracing = "0.1"
tracing-subscriber = { version = "0.3", features = ["env-filter"] }
tracing-appender = "0.2"
image = { version = "*", default-features = false, features = ["png", "jpeg"] }
fontdue = "=0.9.5"
smithay = { version = "=0.7.0", default-features = false, features = ["backend_winit", "desktop", "renderer_gl", "wayland_frontend"] }
