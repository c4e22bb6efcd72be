[package]
name = "zeros_tooling"
version = "0.1.0"
edition = "2021"
publish = false

[dependencies]
heck = "=0.5.0"
regex = "=1.13.1"
getrandom = "=0.3.4"
json = "=0.12.4"
clap = { version = "=4.6.7", features = ["derive"] }
serde = { version = "=1.0.229", features = ["derive"] }
rmp-serde = "=1.3.1"
toml = "=1.1.8"
which = "=8.0.6"
object = "=0.40.0"
gimli = "=0.34.0"
symbolic-demangle = "=13.9.0"
versions = "*"
