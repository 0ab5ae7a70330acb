[package]
name = "tuitunes"
version = "0.1.0"
edition = "2021"
publish = false

[dependencies]
anyhow = "1"
clap = { version = "3", default-features = false, features = ["std", "derive"] }
crossterm = { version = "0.25", default-features = false }
fastrand = "1"
reqwest = { version = "0.11", default-features = false, features = ["blocking"] }
skim = { version = "0.9", default-features = false }
spectrum-analyzer = "1"
tui = "0.19"
