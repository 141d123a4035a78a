[package]
name = "huff_ls"
version = "0.1.0"
edition = "2021"
publish = false

[dependencies]
huff_lexer = "=0.3.0"
huff_utils = "=0.1.0"
tower-lsp = "=0.20.0"
tokio = { version = "=1.53.2", features = ["full"] }
