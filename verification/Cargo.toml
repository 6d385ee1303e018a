[package]
name = "color_avg"
version = "0.1.0"
edition = "2021"
publish = false

[dependencies]
css-colors = "*"
rand = "*"
