[package]
name = "explore"
version = "0.1.0"
edition = "2021"
publish = false

[dependencies]
pathfinding = "*"
rand = "*"
noise = "*"
ratatui = "*"
crossterm = "*"
figlet-rs = "*"
