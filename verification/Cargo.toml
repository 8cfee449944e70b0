[package]
name = "socketioxide_emitter"
version = "0.1.0"
edition = "2021"
publish = false

[dependencies]
serde = "*"
socketioxide-core = "*"
socketioxide-parser-common = "*"
socketioxide-parser-msgpack = "*"

[dev-dependencies]
rmp = "*"
rmp-serde = "*"
bytes = "*"
