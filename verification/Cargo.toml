[package]
name = "movie_player"
version = "0.1.0"
edition = "2021"
publish = false

[dependencies]
gio = "0.20"
glib = "0.20"
gstreamer = "0.23"
gtk4 = "0.9"
rfd = "0.15"
