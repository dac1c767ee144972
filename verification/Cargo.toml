[package]
name = "chinchon"
version = "0.1.0"
edition = "2021"
publish = false

[dependencies]
cast = "=0.3.0"
rand = "=0.8.8"
gameboard = "=0.1.0"
termion = "=1.5.6"
