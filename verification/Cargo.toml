[package]
name = "spell_checker"
version = "0.1.0"
edition = "2021"
publish = false

[dependencies]
clap = "4"
murmur3 = "0.5"
