[package]
name = "terminal_battle_ship"
version = "0.1.0"
edition = "2021"
publish = false

[dependencies]
termion = "*"
local-ip-address = "*"
