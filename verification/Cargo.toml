[package]
name = "trusty_ipc"
version = "0.1.0"
edition = "2021"
publish = false

[dependencies]
arrayvec = "0.7"
ciborium = "0.2"
coset = "0.3"
enumn = "0.1"
itertools = "0.12"
libc = "0.2"
log = "0.4"
openssl = "0.10"
proc-macro2 = "1"
quote = "1"
syn = { version = "2", features = ["full"] }
termcolor = "1"
