[package]
name = "riscv_dis"
version = "0.1.0"
edition = "2021"
publish = false

[dependencies]
proc-macro2 = "=1.0.107"
quote = "=1.0.47"
structopt = "=0.3.26"

[dev-dependencies]
regex = "=1.13.1"
ux = "=0.1.6"
