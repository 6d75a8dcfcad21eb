[package]
name = "dinoclone"
version = "0.1.0"
edition = "2021"
publish = false

[dependencies]
chrono = "0.4"
ncurses = "5"
noise = "0.7"
rand = "0.7"
shellexpand = "2"
