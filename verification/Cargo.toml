[package]
name = "knitwit"
version = "0.1.0"
edition = "2021"
publish = false

[dependencies]
anyhow = "=1.0.104"
id-arena = "=2.3.0"
semver = "=1.0.28"
wit-component = "=0.261.0"
wit-parser = "=0.261.0"
