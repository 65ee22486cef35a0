[package]
name = "disk_sampler"
version = "0.1.0"
edition = "2021"

[dependencies]
rand = "0.8"
macroquad = "0.4"
