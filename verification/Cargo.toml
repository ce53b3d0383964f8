[package]
name = "docdoc"
version = "0.1.0"
edition = "2021"
publish = false

[dependencies]
comrak = "*"
pulldown-cmark = "*"
yaml-rust = "*"
tera = "*"
serde = { version = "*", features = ["derive"] }
serde_derive = "*"
serde_yaml = "*"
docopt = "*"
fs_extra = "*"
typed-arena = "*"
