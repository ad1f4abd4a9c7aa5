[package]
name = "echidna_lib"
version = "0.1.0"
edition = "2021"
publish = false

[dependencies]
url = "2"
gethostname = "0.4"
rand = "0.8"
tempdir = "0.3"
libc = "0.2"
log = "0.4"
simple-logging = "2"
home = "0.5"
opener = "0.7"
clap = { version = "4", features = ["derive"] }
image = { version = "0.25", default-features = false, features = ["png"] }
