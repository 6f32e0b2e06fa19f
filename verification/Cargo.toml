[package]
name = "offline_player"
version = "0.1.0"
edition = "2021"
publish = false

[dependencies]
rtrb = "*"
rusqlite = { version = "*", features = ["bundled"] }
symphonia = { version = "*", features = ["all"] }
lofty = "*"
thiserror = "*"
sha2 = "*"
hex = "*"
objc2-core-audio = "*"
objc2-core-audio-types = "*"
