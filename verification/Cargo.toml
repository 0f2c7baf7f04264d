[package]
name = "gpubench"
version = "0.1.0"
edition = "2021"
publish = false

[dependencies]
anyhow = "1"
ash = "0.38"
bytemuck = { version = "1", features = ["derive", "min_const_generics"] }
colored = "2"
dialoguer = "0.11"
indicatif = "0.17"
shaderc = "0.8"
