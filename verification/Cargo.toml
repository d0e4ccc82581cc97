[package]
name = "launcher"
version = "0.1.0"
edition = "2021"
publish = false

[dependencies]
fuzzy-matcher = "0.3"
gtk = "0.9"
gdk = "0.13"
glib = "0.10"
