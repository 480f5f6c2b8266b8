[package]
name = "media_type"
version = "0.1.0"
edition = "2021"
publish = false

[dependencies]
lut = "0.1.0-unstable"
media-type-impl-utils = "0.3.1-unstable"
percent-encoding = "1.0.1"
quoted-string = "*"
