[package]
name = "bevy_mod_reaction"
version = "0.1.0"
edition = "2021"
publish = false

[dependencies]
bevy_ecs = "0.14"
bevy_app = "0.14"
bevy_utils = "0.14"
