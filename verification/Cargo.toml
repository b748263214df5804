[package]
name = "wt_extract"
version = "0.1.0"
edition = "2021"
publish = false

[dependencies]
bson = "0.14"
ansi_term = "0.12"
getopts = "0.2"
libc = "0.2"
