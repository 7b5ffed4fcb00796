[package]
name = "tremor_language_server"
version = "0.1.0"
edition = "2021"
publish = false

[dependencies]
tremor-script = "*"
halfbrown = "*"
tower-lsp = "*"
async-std = { version = "*", features = ["attributes"] }
clap = "*"
serde_json = "*"
