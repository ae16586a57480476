[package]
name = "shiba_preview"
version = "0.1.0"
edition = "2021"
publish = false

[dependencies]
pulldown-cmark = { version = "0.13", default-features = false }
aho-corasick = "1"
regex = "1"
memchr = "2"
emojis = "0.6"
indexmap = "2"
ammonia = "4"
lexopt = "0.3"
serde = { version = "1", features = ["derive"] }
serde_json = "1"
serde_yaml = "0.9"
dirs = "5"
anyhow = "1"
