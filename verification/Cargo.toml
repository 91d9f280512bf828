[package]
name = "rpix"
version = "0.1.0"
edition = "2021"
publish = false

[dependencies]
anyhow = "1"
atty = "0.2"
base64 = "0.22"
calamine = "*"
clap = { version = "4", features = ["derive"] }
crossterm = "*"
directories = "*"
flate2 = "1"
headless_chrome = "*"
image = "0.25"
pdfium-render = "*"
quick-xml = "*"
resvg = "*"
tempfile = "3"
tiny-skia = "*"
usvg = "*"
zip = "*"
