[package]
name = "f1_data"
version = "0.0.2"
edition = "2021"
publish = false

[dependencies]
serde = { version = "1", features = ["derive"] }
serde_json = "1"
serde_with = "3"
url = "2"
time = { version = "0.3", features = ["macros", "serde", "parsing", "formatting"] }
ureq = "3"
governor = "*"
nonzero_ext = "0.3"
indexmap = "2"
ordered-float = "*"
regex = "1"
once_cell = "1"
bitflags = "2"
enum-as-inner = "*"
serde_yaml = "0.9"
