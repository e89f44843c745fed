[package]
name = "pdf_opticompress"
version = "0.1.0"
edition = "2021"
publish = false

[dependencies]
anyhow = "*"
clap = { version = "*", features = ["derive"] }
image = "*"
indicatif = "*"
lopdf = "*"
oxipng = "*"
rayon = "*"
reqwest = { version = "*", default-features = false, features = ["blocking"] }
tempfile = "*"
