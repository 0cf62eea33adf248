[package]
name = "gixkit"
version = "0.1.0"
edition = "2021"
publish = false

[dependencies]
gix = "=0.88.0"
gix-hash = "=0.27.0"
gix-object = "=0.65.0"
chrono = "=0.4.45"
directories = "=6.0.0"
clap = { version = "=4.6.7", features = ["derive", "env"] }
anyhow = "=1.0.104"
