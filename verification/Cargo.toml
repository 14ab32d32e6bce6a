[package]
name = "palmtop"
version = "0.5.0"
edition = "2021"
publish = false

[dependencies]
anyhow = "1"
ashpd = { version = "0.9", default-features = false, features = ["tokio"] }
mdns-sd = "*"
pipewire = "0.10"
qrcode = { version = "0.14", default-features = false, features = ["svg"] }
serde = { version = "1", features = ["derive"] }
snow = "0.10"
socket2 = { version = "0.5", features = ["all"] }
tokio = { version = "1", features = ["rt-multi-thread"] }
toml = "0.8"
wayland-client = "0.31"
wayland-protocols-misc = { version = "0.3", features = ["client"] }
wayland-protocols-wlr = { version = "0.3", features = ["client"] }
xkbcommon = "0.8"
