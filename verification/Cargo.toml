[package]
name = "polydup"
version = "0.1.0"
edition = "2021"
publish = false

[dependencies]
semver = "1"
tabled = "0.20"
anyhow = "1"
clap = { version = "4", features = ["derive"] }
clap_complete = "4"
colored = "2"
serde = { version = "1", features = ["derive"] }
serde_json = "1"
toml = "0.8"
chrono = "0.4"
atty = "0.2"
ctrlc = "3"
dialoguer = "0.11"
dirs-next = "2"
indicatif = "0.17"
notify-debouncer-mini = "0.4"
ureq = { version = "3", features = ["json"] }
update-informer = "1"
