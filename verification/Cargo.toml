[package]
name = "mtorrent_gui"
version = "0.1.0"
edition = "2021"
publish = false

[dependencies]
dirs-next = "2"
eframe = { version = "=0.37.0", default-features = false, features = ["default_fonts", "glow", "x11"] }
env_logger = { version = "0.10", default-features = false }
image = { version = "0.25", default-features = false, features = ["png"] }
log = "=0.4.35"
mtorrent = "=0.5.6"
parking_lot = "0.12"
rfd = { version = "=0.17.2", default-features = false, features = ["xdg-portal"] }
serde_json = "=1.0.154"
tokio = { version = "1", features = ["rt"] }
