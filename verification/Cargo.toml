[package]
name = "mptgen"
version = "0.1.0"
edition = "2021"
publish = false

[dependencies]
rand = "0.8"
tokenizers = "*"
structopt = "0.3"
rustyline = "*"
ctrlc = "3"
color-eyre = "0.6"
thiserror = "1"
