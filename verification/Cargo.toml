[package]
name = "shell_sessions"
version = "0.1.0"
edition = "2021"
publish = false

[dependencies]
ansi-to-html = "*"
mdbook = { version = "0.4", default-features = false }
pulldown-cmark = { version = "*", default-features = false }
pulldown-cmark-to-cmark = "*"
serde_json = "1"
tempfile = "3"
