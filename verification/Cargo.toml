[package]
name = "skald"
version = "0.1.0"
edition = "2021"
publish = false

[dependencies]
base64 = "0.22"
chrono = "0.4"
chrono-tz = "*"
cron = "*"
glob = "0.3"
indexmap = "2"
proc-macro2 = { version = "1", features = ["span-locations"] }
quote = "1"
regex = "1"
serde = { version = "1", features = ["derive"] }
serde_json = "1"
serde_yaml = "0.9"
syn = { version = "2", features = ["full"] }
tree-sitter = "0.26"
tree-sitter-bash = "*"
tree-sitter-c = "*"
tree-sitter-cpp = "*"
tree-sitter-css = "*"
tree-sitter-elixir = "*"
tree-sitter-go = "*"
tree-sitter-html = "*"
tree-sitter-java = "*"
tree-sitter-javascript = "*"
tree-sitter-json = "*"
tree-sitter-lua = "*"
tree-sitter-python = "*"
tree-sitter-ruby = "*"
tree-sitter-swift = "*"
tree-sitter-typescript = "*"
tree-sitter-yaml = "*"
