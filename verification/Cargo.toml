[package]
name = "autobib_entry"
version = "0.1.0"
edition = "2021"
publish = false

[dependencies]
phf = { version = "*", features = ["macros"] }
regex = "*"
serde = { version = "*", features = ["derive"] }
serde_bibtex = "*"
thiserror = "*"
