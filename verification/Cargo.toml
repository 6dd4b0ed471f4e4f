[package]
name = "guitar_pitch_detection"
version = "0.2.0"
edition = "2021"
publish = false

[dependencies]
cpal = "0.15"
rodio = "0.20"
dasp_sample = "0.11"
