[package]
name = "player"
version = "0.1.0"
edition = "2021"
publish = false

[dependencies]
minimp3 = "0.5"
spectrum-analyzer = "1"
