[package]
name = "myshell"
version = "0.1.0"
edition = "2021"
publish = false

[dependencies]
crossterm = "*"
home = "*"
is_executable = "*"
prettytable-rs = "*"
rlua = "*"
tree-sitter = "*"
tree-sitter-lua = "*"
