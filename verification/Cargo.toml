[package]
name = "leo_compiler"
version = "0.1.0"
edition = "2021"
publish = false

[dependencies]
num-bigint = "0.4"
num-traits = "0.2"
pest = "2"
pest-ast = "0.3"
pest_derive = "2"
from-pest = "0.3"
serde = { version = "1", features = ["derive"] }
