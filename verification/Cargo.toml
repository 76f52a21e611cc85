[package]
name = "pesde"
version = "0.5.0"
edition = "2021"
publish = false

[dependencies]
full_moon = { version = "=3.0.0", features = ["luau"] }
toml = "=1.1.6+spec-1.1.0"
toml_edit = "=0.25.15+spec-1.1.0"
serde = { version = "=1.0.229", features = ["derive"] }
clap = { version = "=4.6.7", features = ["derive"] }
anyhow = "=1.0.104"
fs-err = "=3.3.2"
gix = { version = "=0.88.0", features = ["blocking-network-client"] }
reqwest = { version = "=0.13.5", features = ["blocking", "json"] }
