[package]
name = "anticipate"
version = "0.1.0"
edition = "2021"
publish = false

[dependencies]
regex = "1"
comma = "1"
unicode-segmentation = "1"
ptyprocess = "0.4"
probability = "0.20"
rand = "0.8"
anyhow = "1"
clap = { version = "4", features = ["derive"] }
colored = "2"
rayon = "1"
