[package]
name = "ticket_layout"
version = "0.1.0"
edition = "2021"
publish = false

[dependencies]
ttf-parser = "*"
chrono = "0.4"
printpdf = { version = "0.7", features = ["embedded_images"] }
image = "0.24"
