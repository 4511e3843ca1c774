[package]
name = "cargo-bitbake"
version = "0.3.16"
edition = "2021"
publish = false

[dependencies]
anyhow = "=1.0.104"
cargo = "=0.81.0"
cargo-util = ">=0.2.9, <0.2.20"
git2 = "=0.18.3"
itertools = "=0.13.0"
kstring = ">=2.0.0, <2.0.3"
lazy_static = "=1.5.1"
md5 = "=0.7.0"
regex = "=1.13.1"
semver = "=1.0.28"
