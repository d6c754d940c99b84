[package]
name = "changeset-operations"
version = "0.1.0"
edition = "2021"
publish = false

[dependencies]
semver = "1"
globset = "0.4"
indexmap = "2"
chrono = "0.4"
