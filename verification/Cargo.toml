[package]
name = "cfmail"
version = "0.1.0"
edition = "2021"
publish = false

[dependencies]
anyhow = "*"
chrono = "*"
clap = { version = "*", features = ["derive"] }
colored = "*"
dirs = "*"
html2text = "*"
imap = "2"
indicatif = "*"
mail-parser = "*"
native-tls = "*"
prettytable-rs = "*"
rand = "*"
regex = "*"
reqwest = { version = "*", features = ["json"] }
serde = { version = "*", features = ["derive"] }
serde_json = "*"
tokio = { version = "*", features = ["macros", "rt-multi-thread"] }
toml = "*"
