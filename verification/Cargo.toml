[package]
name = "null_finder"
version = "0.1.0"
edition = "2021"
publish = false

[dependencies]
clap = "2"
crossbeam = "0.8"
csv = "1"
memchr = "2"
num_cpus = "1"
quick-csv = "0.1"
regex = "1"
walkdir = "2"
zip = { version = "0.6", default-features = false, features = ["deflate"] }
