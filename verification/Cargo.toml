[package]
name = "cliclack"
version = "0.1.0"
edition = "2021"
publish = false

[dependencies]
strsim = "*"
console = "*"
indicatif = "*"
libc = "*"
termsize = "*"
