[package]
name = "holomotion_installer"
version = "2.5.0"
edition = "2021"
publish = false

[dependencies]
anyhow = "1"
chrono = "0.4"
clap = "4"
dirs = "5"
regex = "1"
