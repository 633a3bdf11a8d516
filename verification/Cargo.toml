[package]
name = "freemind"
version = "0.1.0"
edition = "2021"
publish = false

[dependencies]
chrono = "=0.4.45"
clap = { version = "=4.6.7", features = ["cargo"] }
confy = "=2.0.0"
dialoguer = { version = "=0.12.0", features = ["fuzzy-select"] }
dirs = "=7.0.0"
prettytable-rs = "=0.10.0"
quick-xml = "=0.30.0"
rand = "=0.10.3"
reqwest = { version = "=0.13.5", default-features = false }
serde = { version = "=1.0.229", features = ["derive"] }
termion = "=4.0.6"
tokio = { version = "=1.53.2", features = ["macros", "rt-multi-thread"] }
