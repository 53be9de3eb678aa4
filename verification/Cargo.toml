[package]
name = "theory_craft_ta"
version = "0.1.0"
edition = "2021"
publish = false

[dependencies]
rustler = "0.36"
