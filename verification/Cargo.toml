[package]
name = "rmpc"
version = "0.1.0"
edition = "2021"
publish = false

[dependencies]
itertools = "=0.14.0"
ratatui = "=0.29.0"
textwrap = "0.16"
