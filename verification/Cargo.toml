[package]
name = "ruspy"
version = "0.1.0"
edition = "2021"

[dependencies]
ariadne = "0.5"
winnow = "0.7"
