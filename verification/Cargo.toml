[package]
name = "rust_harp"
version = "0.1.0"
edition = "2021"
publish = false

[dependencies]
winit = "0.29"
softbuffer = "0.4"
midir = "0.9"
crossbeam-channel = "0.5"
log = "0.4"
env_logger = "0.11"
