[package]
name = "pixel_engine"
version = "0.1.0"
edition = "2021"
publish = false

[dependencies]
ash = "0.38"
ash-window = "0.13"
raw-window-handle = "0.6"
winit = { version = "0.29", default-features = false, features = ["x11", "rwh_06"] }
log = "0.4"
env_logger = { version = "0.11", default-features = false }
image = { version = "0.25", default-features = false, features = ["png"] }
mlua = { version = "0.10", features = ["lua54", "vendored"] }
tokio = { version = "1", features = ["rt", "macros"] }
