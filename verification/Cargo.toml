[package]
name = "day_piece_media"
version = "0.1.0"
edition = "2021"
publish = false

[dependencies]
log = "0.4"
day-core = "*"
day-reactive = "*"
day-spec = "*"
day-pieces = "*"
day-part-http = "*"
