[package]
name = "unirun"
version = "0.1.0"
edition = "2021"
publish = false

[dependencies]
serde_json = { version = "1", features = ["preserve_order"] }
uuid = { version = "1", features = ["v4"] }
glib = "*"
gio = "*"
gtk4 = "*"
gtk4-layer-shell = "*"
ctrlc = "3"
env_logger = "*"
log = "0.4"
