[package]
name = "fexplorer"
version = "0.1.0"
edition = "2021"
publish = false

[dependencies]
anyhow = "1"
blake3 = "1"
chrono = { version = "0.4", features = ["serde"] }
clap = { version = "4", features = ["derive"] }
clap_complete = "4"
crossterm = "*"
csv = "1"
dirs = "*"
fuzzy-matcher = "0.3"
globset = "0.4"
grep-matcher = "*"
grep-regex = "*"
grep-searcher = "*"
humansize = "2"
ignore = "0.4"
jwalk = "*"
notify = "*"
nu-ansi-term = "*"
rayon = "1"
regex = "1"
serde = { version = "1", features = ["derive"] }
serde_json = "1"
thiserror = "*"
toml = "*"
