[package]
name = "cairo_macros"
version = "0.1.0"
edition = "2021"
publish = false

[dependencies]
bigdecimal = "*"
cairo-lang-macro = "*"
cairo-lang-parser = "*"
cairo-lang-syntax = "*"
cairo-lang-filesystem = "*"
cairo-lang-utils = "*"
