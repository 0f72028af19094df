[package]
name = "orbit_prop"
version = "0.1.0"
edition = "2021"
publish = false
