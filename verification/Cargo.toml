[package]
name = "voice_assistant"
version = "0.1.0"
edition = "2021"
publish = false

[dependencies]
chrono = "=0.4.45"
clap = { version = "=4.6.7", features = ["derive", "env"] }
color-eyre = "=0.6.5"
cpal = "=0.17.1"
oneshot = "=0.1.13"
pest = "=2.9.4"
pest_derive = "=2.9.4"
reqwest = { version = "=0.12.28", features = ["blocking"] }
rkyv = { version = "=0.7.46", features = ["validation"] }
rodio = { version = "=0.21.1", default-features = false, features = ["playback"] }
serde = { version = "1", features = ["derive"] }
serde_json = "1"
url = "=2.5.8"
voice_activity_detector = "=0.2.1"
whisper-rs = "=0.15.1"
