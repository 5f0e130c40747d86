[package]
name = "papyrus_lexer"
version = "0.1.0"
edition = "2021"
publish = false

[dependencies]
annotate-snippets = "0.6"
