[package]
name = "gsftp"
version = "0.1.0"
edition = "2021"
publish = false

[dependencies]
ssh2 = "0.9"
crossbeam-channel = "0.5"
clap = "3.2"
crossterm = "0.25"
tui = "0.19"
ctrlc = "3"
dns-lookup = "1"
