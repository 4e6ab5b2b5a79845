[package]
name = "reddit_search"
version = "0.1.0"
edition = "2021"
publish = false

[dependencies]
rayon = "1"
zstd = "0.13"
clap = "4"
chrono = "0.4"
indicatif = "0.17"
num_cpus = "1"
