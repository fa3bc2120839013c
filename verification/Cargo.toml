[package]
name = "omt_audio_out"
version = "0.1.0"
edition = "2021"
publish = false

[dependencies]
cpal = "*"
parking_lot = "*"
tracing = "*"
