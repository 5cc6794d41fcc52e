[package]
name = "fenmov"
version = "0.1.1"
edition = "2021"
publish = false

[dependencies]
clap = "2"
walkdir = "2"
