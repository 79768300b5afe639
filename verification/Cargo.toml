[package]
name = "yui"
version = "0.1.0"
edition = "2021"
publish = false

[dependencies]
rand = "=0.8.8"
unicode-width = "=0.1.14"
ncurses = "=5.88.0"
