[package]
name = "et"
version = "0.1.0"
edition = "2021"
publish = false

[dependencies]
clap = { version = "=4.6.7", features = ["derive"] }
crossterm = "=0.29.0"
crossterm_winapi = "0.9"
ctrlc = "3"
jiff = "=0.2.39"
nix = { version = "=0.31.3", features = ["signal", "process"] }
portable-pty = "=0.9.0"
prost = "=0.14.4"
rustix = { version = "=1.1.6", features = ["event", "fs", "process", "time", "pipe"] }
signal-hook = "=0.3.18"
sysinfo = "=0.40.1"
tikv-jemallocator = "=0.7.0"
tokio = { version = "1", features = ["macros", "rt", "signal"] }
wait-timeout = "=0.2.1"
windows-spawn = "*"
