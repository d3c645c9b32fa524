[package]
name = "deet"
version = "0.1.0"
edition = "2021"
publish = false

[dependencies]
nix = { version = "0.29", features = ["ptrace", "signal", "process"] }
libc = "0.2"
rand = "0.8"
rustyline = "14"
tokio = { version = "1", features = ["sync"] }
crossbeam-channel = "0.5"
