[package]
name = "chipmunk"
version = "0.1.0"
edition = "2021"
publish = false

[dependencies]
chipmunk-sys = "*"
void = "*"
