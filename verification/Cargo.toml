[package]
name = "port"
version = "0.1.0"
edition = "2021"
publish = false

[dependencies]
anyhow = "1"
fs-err = "2"
gray_matter = "0.2"
inkjet = "0.10"
pulldown-cmark = "0.10"
rss = "2"
serde = { version = "1", features = ["derive"] }
serde_yaml = "0.9"
tera = "1"
time = { version = "0.3", features = ["formatting", "local-offset", "macros", "parsing", "serde"] }
walkdir = "2"
