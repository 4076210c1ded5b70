[package]
name = "bagsakan"
version = "0.1.0"
edition = "2021"
publish = false

[dependencies]
regex = "=1.13.1"
oxc_resolver = "=11.24.3"
oxc_allocator = "=0.139.0"
oxc_ast = "=0.139.0"
oxc_parser = "=0.139.0"
oxc_span = "=0.139.0"
clap = { version = "=4.6.7", features = ["derive"] }
glob = "=0.3.4"
serde = { version = "=1.0.229", features = ["derive"] }
toml = "=1.1.6"
