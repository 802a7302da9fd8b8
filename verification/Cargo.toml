[package]
name = "brewer"
version = "0.1.0"
edition = "2021"
publish = false

[dependencies]
nucleo-matcher = "0.3"
anyhow = "1"
clap = { version = "4", features = ["derive"] }
colored = "2"
derive_builder = "0.20"
log = "0.4"
reqwest = { version = "0.12", features = ["blocking"] }
serde = { version = "1", features = ["derive"] }
serde_json = "1"
skim = "0.10"
terminal_size = "0.3"
textwrap = "0.16"
