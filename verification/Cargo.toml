[package]
name = "gamepad_applet"
version = "0.1.0"
edition = "2021"
publish = false

[dependencies]
zbus = { version = "5", default-features = false, features = ["tokio"] }
tokio = { version = "1", features = ["rt", "macros", "time"] }
