[package]
name = "generate-assets"
version = "0.1.0"
edition = "2021"
publish = false

[dependencies]
anyhow = "=1.0.104"
base64 = "=0.13.1"
cargo_toml = "=0.14.1"
console = "=0.16.6"
cratesio-dbdump-csvtab = "=0.2.2"
cratesio-dbdump-lookup = "=0.1.1"
reqwest = { version = "=0.11.27", features = ["blocking", "json"] }
serde = { version = "=1.0.229", features = ["derive"] }
toml = "=0.5.11"
url = "=2.5.8"
