[package]
name = "chess_player"
version = "0.1.0"
edition = "2021"
publish = false

[dependencies]
chess = "3.2"
threadpool = "1.8"
dialoguer = "*"
