[package]
name = "sphere_direct_audio_engine"
version = "0.1.0"
edition = "2021"
publish = false

[dependencies]
cpal = "0.15"
crossbeam-channel = "0.5"
parking_lot = "0.12"
serde_json = "1"
