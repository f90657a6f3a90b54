[package]
name = "ld_metadata"
version = "0.1.0"
edition = "2021"
publish = false

[dependencies]
iref = "=3.2.2"
syn = "=2.0.119"
proc-macro2 = "=1.0.107"
quote = "=1.0.47"
proc-macro-error = "=1.0.4"
