[package]
name = "syslog_fmt"
version = "0.1.0"
edition = "2021"
publish = false

[dependencies]
time = { version = "0.3", features = ["formatting", "local-offset"] }
hostname = "0.3"
