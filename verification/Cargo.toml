[package]
name = "imagine_gif"
version = "0.1.0"
edition = "2021"
publish = false

[dependencies]
gif = "=0.13.3"
image = "=0.24.9"
imageproc = "=0.23.1"
rusttype = "=0.9.3"
text_on_image = "=0.1.0"
ttf-parser = "=0.15.2"
percent-encoding = "=2.3.2"
