[package]
name = "anyproc"
version = "0.1.0"
edition = "2021"
publish = false

[dependencies]
crossterm = "0.28"
ratatui = "0.29"
sysinfo = "0.33"
unicode-width = "0.2"
