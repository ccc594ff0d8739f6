[package]
name = "chunky_queue"
version = "0.1.0"
edition = "2021"

[dependencies]
bit-set = "*"
