[package]
name = "pg_dump"
version = "0.1.0"
edition = "2021"
publish = false

[dependencies]
structopt = "0.3"
tokio = { version = "1", features = ["rt-multi-thread", "time"] }
tokio-postgres = "0.7"
