[package]
name = "cdlint"
version = "0.1.0"
edition = "2021"
publish = false

[dependencies]
anyhow = "1"
ariadne = "0.4"
clap = { version = "4", features = ["derive"] }
confique = "0.2"
indexmap = "2"
petgraph = "0.6"
tracing = "0.1"
