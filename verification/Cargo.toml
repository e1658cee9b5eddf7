[package]
name = "rupdf"
version = "0.1.0"
edition = "2021"
publish = false

[dependencies]
barcoders = "*"
image = "0.24"
miniz_oxide = "0.7"
pdf-writer = "0.9"
pyo3 = { version = "0.20", features = ["extension-module"] }
qrcode = { version = "*", default-features = false }
subsetter = "0.1"
thiserror = "1"
ttf-parser = "0.20"
usvg = "0.29"
