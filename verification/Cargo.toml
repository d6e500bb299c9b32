[package]
name = "janitor"
version = "0.1.0"
edition = "2021"
publish = false

[dependencies]
glob = "*"
toml = "*"
directories = "*"
notify = "*"
notify-debouncer-mini = "*"
notify-rust = "*"
single-instance = "*"
tray-item = "*"
