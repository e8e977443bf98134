[package]
name = "satnogs-monitor"
version = "0.1.0"
edition = "2021"
publish = false

[dependencies]
byteorder = "1"
chrono = "0.4"
circular-queue = "0.2"
clap = "2"
crossbeam-channel = "0.3"
failure = "0.1"
libc = "0.2"
log = { version = "0.4", features = ["std"] }
notify = "=5.0.0-pre.1"
regex = "1"
signal-hook = "0.1"
systemstat = "0.1"
termion = "1.5"
tui = "0.6"
