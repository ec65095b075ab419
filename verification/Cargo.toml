[package]
name = "bino"
version = "0.1.0"
edition = "2021"
publish = false

[dependencies]
minifb = "0.19"
static_assertions = "1"
