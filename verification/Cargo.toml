[package]
name = "dgraph_admin"
version = "0.1.0"
edition = "2021"
publish = false

[dependencies]
argh = "0.1"
humantime = "2"
ureq = "2"
url = "2"
