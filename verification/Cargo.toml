[package]
name = "kotlot"
version = "0.1.0"
edition = "2021"
publish = false

[dependencies]
ncollide2d = "=0.26.1"
rand = "=0.7.3"
bevy = { version = "0.11", default-features = false }
