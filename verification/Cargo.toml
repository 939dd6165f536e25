[package]
name = "ao3fti"
version = "0.1.0"
edition = "2021"
publish = false

[dependencies]
clap = { version = "=4.6.7", features = ["derive"] }
crossbeam-channel = "=0.5.17"
html5ever = "=0.26.0"
http = "=1.5.0"
isahc = "=2.0.1"
markup5ever = "=0.11.0"
markup5ever_arcdom = "=0.1.2"
rand = "=0.10.3"
serde = { version = "=1.0.229", features = ["derive"] }
serde_json = "=1.0.151"
sqlx = { version = "=0.9.0", default-features = false, features = ["runtime-tokio", "sqlite"] }
tantivy = "=0.26.2"
tokio = { version = "=1.53.2", features = ["rt-multi-thread"] }
