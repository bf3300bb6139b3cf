[package]
name = "scafalra"
version = "1.0.0"
edition = "2021"
publish = false

[dependencies]
anyhow = "1"
chrono = "0.4"
clap = { version = "4", features = ["derive"] }
dircpy = "0.3"
directories = "5"
flate2 = "1"
fs-err = "2"
glob = "0.3"
inquire = "*"
owo-colors = { version = "*", features = ["supports-colors"] }
remove_dir_all = "0.8"
serde = { version = "1", features = ["derive"] }
serde_json = "1"
strsim = "0.10"
tabled = "*"
tar = "0.4"
term_grid = "*"
thiserror = "1"
ureq = "2"
zip = "0.6"
