[package]
name = "hml_rs"
version = "0.3.0"
edition = "2021"
publish = false

[dependencies]
lexer-rs = "*"
xml-rs = "0.8"
clap = "4"
thiserror = "1"
