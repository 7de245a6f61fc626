[package]
name = "selection_comments"
version = "0.1.0"
edition = "2021"
publish = false

[dependencies]
anyhow = "1"
gh-workflow = "*"
serde_json = "1"
