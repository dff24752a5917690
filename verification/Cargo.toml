[package]
name = "kese"
version = "0.1.0"
edition = "2021"
publish = false

[dependencies]
strsim = "=0.11.1"
colored = "=3.1.1"
clap = { version = "=4.6.7", features = ["derive"] }
cranelift = "=0.123.19"
cranelift-module = "=0.123.19"
cranelift-object = "=0.123.19"
cranelift-native = "=0.123.19"
cranelift-frontend = "=0.123.19"
target-lexicon = "=0.13.5"
