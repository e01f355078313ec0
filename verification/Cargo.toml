[package]
name = "r_ressources"
version = "0.1.0"
edition = "2021"
publish = false

[dependencies]
quick-xml = "*"
bigdecimal = "*"
