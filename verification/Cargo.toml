[package]
name = "cli_chat"
version = "0.1.0"
edition = "2021"
publish = false

[dependencies]
tree-sitter = "=0.25.10"
tree-sitter-rust = "=0.24.2"
tree-sitter-python = "=0.25.0"
tree-sitter-javascript = "=0.25.0"
tree-sitter-typescript = "=0.23.2"
tree-sitter-java = "=0.23.5"
tree-sitter-go = "=0.25.0"
tree-sitter-c = "=0.24.2"
tree-sitter-cpp = "=0.23.4"
base64 = "=0.23.1"
serde_json = "=1.0.154"
mime_guess = "=2.0.5"
tokio = { version = "*", features = ["full"] }
clap = { version = "*", features = ["derive"] }
anyhow = "*"
dotenvy = "*"
sqlx = { version = "*", default-features = false, features = ["runtime-tokio", "postgres"] }
pgvector = { version = "*", features = ["sqlx"] }
neo4rs = "*"
reqwest = { version = "*", default-features = false, features = ["json"] }
serde = { version = "*", features = ["derive"] }
tempfile = "*"
ctrlc = "*"
log = "*"
simple_logger = "*"
async-trait = "*"
