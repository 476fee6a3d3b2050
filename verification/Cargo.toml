[package]
name = "rust_vim"
version = "0.1.0"
edition = "2021"
publish = false

[dependencies]
count-digits = "*"
crossterm = "*"
ratatui = "*"
regex = "*"
ropey = "*"
structopt = "*"
unicode-display-width = "*"
