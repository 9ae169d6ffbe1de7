[package]
name = "song_manage"
version = "0.1.0"
edition = "2021"
publish = false

[dependencies]
candid = "0.9.9"
ic-cdk = "0.11.1"
ic-stable-structures = "0.5.6"
serde = { version = "1", features = ["derive"] }
