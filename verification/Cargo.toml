[package]
name = "trustfall_rustdoc"
version = "0.1.0"
edition = "2021"
publish = false

[dependencies]
anyhow = "1"
cargo_metadata = "*"
fs-err = "*"
handlebars = "*"
serde = { version = "1", features = ["derive"] }
serde_json = "1"
thiserror = "*"
trustfall = "*"
trustfall-rustdoc-adapter = "*"
