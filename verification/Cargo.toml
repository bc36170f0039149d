[package]
name = "shrike"
version = "0.1.0"
edition = "2021"
publish = false

[dependencies]
clap = { version = "4", features = ["derive"] }
dirs = "5"
indexmap = "2"
libc = "0.2"
nix = { version = "0.29", features = ["signal"] }
portable-pty = "0.8"
regex = "1"
tempfile = "3"
terminal_size = "0.4"
toml = "0.8"
