[package]
name = "ripjson"
version = "0.1.0"
edition = "2021"

[dependencies]
atty = "*"
colored = "*"
getopts = "*"
indexmap = { version = "*", features = ["serde"] }
regex = "*"
serde_json = { version = "*", features = ["preserve_order"] }
