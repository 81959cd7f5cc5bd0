[package]
name = "tui-lipan"
version = "0.1.0"
edition = "2021"
publish = false

[dependencies]
unicode-width = "*"
typed-path = "*"
nucleo = "*"
dunce = "*"
ignore = "*"
