[package]
name = "tryke"
version = "0.1.0"
edition = "2021"
publish = false

[dependencies]
anyhow = "=1.0.104"
clap = { version = "=4.6.7", features = ["derive"] }
clap-verbosity-flag = "=3.0.4"
env_logger = "=0.11.11"
ignore = "=0.4.33"
log = "=0.4.34"
miette = { version = "=7.6.0", features = ["fancy"] }
owo-colors = "=4.4.0"
ruff_python_ast = "=0.0.8"
ruff_python_parser = "=0.0.8"
ruff_source_file = "=0.0.8"
ruff_text_size = "=0.0.8"
serde = { version = "=1.0.229", features = ["derive"] }
serde_json = "=1.0.154"
