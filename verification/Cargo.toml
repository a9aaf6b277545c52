[package]
name = "cargo-wizard"
version = "0.2.2"
edition = "2021"
publish = false

[dependencies]
anyhow = "1"
atty = "0.2"
cargo_metadata = "0.18"
clap = { version = "4", features = ["derive"] }
console = "0.15"
indexmap = "2"
inquire = "0.7"
rustc_version = "0.4"
similar = { version = "2", features = ["inline"] }
thiserror = "1"
toml_edit = "0.22"
which = "6"
