[package]
name = "doggowarp"
version = "0.1.0"
edition = "2021"
publish = false

[dependencies]
zune-jpeg = "*"
winit = "*"
pixels = "*"
rayon = "*"
anyhow = "*"
