[package]
name = "splatter"
version = "0.1.0"
edition = "2021"
publish = false

[dependencies]
glam = "=0.34.1"
ply-rs = "=0.1.3"
bytemuck = "=1.25.2"
linked-hash-map = "=0.5.6"
