[package]
name = "audio_engine"
version = "0.1.0"
edition = "2021"
publish = false

[dependencies]
cpal = "0.15"
crossbeam-queue = "0.3"
hound = "3.5"
thiserror = "2"
