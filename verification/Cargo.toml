[package]
name = "svlog"
version = "0.1.0"
edition = "2021"
publish = false

[dependencies]
chrono = "*"
chrono-tz = "*"
regex = "*"
glob = "*"
notify = "*"
rayon = "*"
sysinfo = "*"
calm_io = "*"
pager = "*"
clap = { version = "*", features = ["derive"] }
