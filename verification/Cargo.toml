[package]
name = "icecube"
version = "0.1.0"
edition = "2021"
publish = false

[dependencies]
bdf2 = "=0.7.1"
image = { version = "=0.24.9", default-features = false, features = ["png"] }
winit = { version = "=0.29.15", default-features = false, features = ["rwh_05", "x11"] }
winit_input_helper = "=0.15.3"
env_logger = { version = "=0.10.2", default-features = false }
log = "=0.4.34"
error-iter = "=0.4.1"
