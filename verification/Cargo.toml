[package]
name = "linguist"
version = "0.1.0"
edition = "2021"
publish = false

[dependencies]
regex = "=1.13.1"
simdutf8 = "=0.1.5"
serde_yaml = "=0.9.34"
metrics = "=0.24.6"
thiserror = "=2.0.21"
magnus = "=0.7.1"
