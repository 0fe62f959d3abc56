[package]
name = "bend-language-server"
version = "0.2.37"
edition = "2021"
publish = false

[dependencies]
bend-lang = "0.2.37"
dashmap = "6"
ropey = "1.6"
tokio = { version = "1", features = ["io-std", "macros", "rt-multi-thread"] }
tower-lsp = "0.20"
tree-sitter = "0.22"
tree-sitter-bend = "*"
tree-sitter-highlight = "0.22"

[dev-dependencies]
regex = "1"
