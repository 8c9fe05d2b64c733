[package]
name = "rustp"
version = "0.1.0"
edition = "2021"
publish = false

[dependencies]
z3 = "=0.10.0"
clap = "=3.2.25"
env_logger = "=0.9.3"
log = "=0.4.35"
