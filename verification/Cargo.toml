[package]
name = "b_lang"
version = "0.1.0"
edition = "2021"
publish = false
