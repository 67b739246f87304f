[package]
name = "four_in_a_row"
version = "0.1.0"
edition = "2021"
publish = false

[dependencies]
crossterm = "*"
