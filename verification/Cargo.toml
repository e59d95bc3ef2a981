[package]
name = "ccp_copa"
version = "0.1.0"
edition = "2021"
publish = false

[dependencies]
clap = "=2.34.0"
fnv = "=1.0.7"
portus = "=0.5.5"
slog = "=2.8.2"
slog-async = "=2.8.0"
slog-term = "=2.9.2"
