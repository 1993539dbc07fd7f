[package]
name = "curri_fsm"
version = "0.1.0"
edition = "2021"
publish = false

[dependencies]
curri = "*"

