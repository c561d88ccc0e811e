[package]
name = "xml_to_json"
version = "0.1.0"
edition = "2021"
publish = false

[dependencies]
regex = "*"
roxmltree = "*"
serde_json = "*"
