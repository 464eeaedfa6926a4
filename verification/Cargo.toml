[package]
name = "rm_pad"
version = "0.1.0"
edition = "2021"
publish = false

[dependencies]
clap = { version = "4", features = ["derive", "env"] }
display-info = "*"
evdevil = "*"
log = "0.4"
serde = { version = "1", features = ["derive"] }
ssh2-config = "*"
