[package]
name = "corpus_mixer"
version = "0.1.0"
edition = "2021"
publish = false

[dependencies]
wav = "*"
json = "*"
