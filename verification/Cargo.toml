[package]
name = "otter_sql"
version = "0.1.0"
edition = "2021"
publish = false

[dependencies]
sqlparser = "0.19"
