[package]
name = "aura_anim_core"
version = "0.2.2"
edition = "2021"
publish = false

[dependencies]
lilt = "*"
thiserror = "2"
iced_core = "0.14"
palette = "0.7"
