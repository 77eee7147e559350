[package]
name = "poll_io"
version = "0.1.0"
edition = "2021"
publish = false

[dependencies]
bytes = "0.5"
futures = "0.3"
genio = "0.2"
tokio = "0.2"
void = "1"
