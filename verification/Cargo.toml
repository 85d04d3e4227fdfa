[package]
name = "tsnc"
version = "0.1.0"
edition = "2021"
publish = false

[dependencies]
anyhow = "*"
melior = "*"
swc_common = "*"
swc_ecma_ast = "*"
swc_ecma_parser = "*"
swc_ecma_visit = "*"
