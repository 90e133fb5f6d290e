[package]
name = "aish"
version = "0.1.0"
edition = "2021"
publish = false

[dependencies]
deno_ast = { version = "*", features = ["transpiling"] }
url = "*"
serde_json = "*"
serde = { version = "*", features = ["derive"] }
anyhow = "*"
dirs = "*"
clap = { version = "*", features = ["derive"] }
rustyline = "*"
tokio = { version = "*", features = ["macros", "rt-multi-thread"] }
reqwest = { version = "*", default-features = false, features = ["json", "rustls-tls"] }
deno_core = "*"
serde_v8 = "*"
deno_error = "*"
