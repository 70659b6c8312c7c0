[package]
name = "chess_ai"
version = "0.1.0"
edition = "2021"
publish = false

[dependencies]
chess = "3.2"
macroquad = "0.4"
rand = "0.8"
