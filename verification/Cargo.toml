[package]
name = "testframework"
version = "0.1.0"
edition = "2021"
publish = false

[dependencies]
microsalt = "*"
sodiumoxide = "0.2"
rand = "0.7"
hex = "0.4"
byteorder = "1"
num-bigint = "0.3"
num-traits = "0.2"
regex = "1"
structopt = "0.3"
clap = "2"
chrono = "0.4"
log = "0.4"
flexi_logger = "0.17"
indicatif = "0.15"
simple-error = "0.2"

