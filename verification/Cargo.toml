[package]
name = "mdbsql"
version = "0.1.0"
edition = "2021"
publish = false

[dependencies]
serde = "1"
serde_plain = "1"
thiserror = "1"
libc = "0.2"
