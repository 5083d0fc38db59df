[package]
name = "dilbert_feed"
version = "0.1.0"
edition = "2021"
publish = false

[dependencies]
base64 = "0.13"
select = "0.6"
tree_magic = "0.2"
anyhow = "1"
atom_syndication = "*"
futures = "0.3"
reqwest = { version = "0.11", default-features = false }
structopt = "0.3"
tokio = { version = "1", features = ["rt-multi-thread"] }
