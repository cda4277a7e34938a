[package]
name = "anime"
version = "0.1.0"
edition = "2021"
publish = false

[dependencies]
arrow = { version = "53", default-features = false }
geo = "0.29"
geo-types = "0.7"
rstar = "0.12"
