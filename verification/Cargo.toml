[package]
name = "aci_map"
version = "0.1.0"
edition = "2021"
publish = false

[dependencies]
glam = "=0.34.1"
log = "=0.4.34"
ordered-float = "=5.5.0"
rayon = "=1.12.0"
traitify = "=0.1.0"
