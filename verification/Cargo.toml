[package]
name = "devconsole"
version = "0.1.0"
edition = "2021"
publish = false

[dependencies]
clap = "4"
shlex = "1"
regex = "1"
bevy = { version = "0.15", default-features = false, features = ["bevy_ui", "bevy_text", "bevy_window", "bevy_state", "bevy_asset"] }
