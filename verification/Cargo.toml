[package]
name = "jobq"
version = "0.1.0"
edition = "2021"
publish = false

[dependencies]
async-trait = "0.1"
event-listener = "5"
futures = "0.3"
futures-timeout = "*"
mea = "*"
thiserror = "2"
