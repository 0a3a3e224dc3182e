[package]
name = "hypr_profile"
version = "0.1.0"
edition = "2021"
publish = false

[dependencies]
anyhow = "1"
clap = "4"
env_logger = "*"
hyprland = "*"
log = "0.4"
