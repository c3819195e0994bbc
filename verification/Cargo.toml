[package]
name = "organizer"
version = "0.1.0"
edition = "2021"
publish = false

[dependencies]
anyhow = "=1.0.104"
better-panic = "=0.3.0"
clap = { version = "=4.6.7", features = ["derive"] }
confique = { version = "=0.4.0", features = ["yaml"] }
dirs = "=6.0.0"
dotenv = "=0.15.0"
log = "=0.4.34"
pretty_env_logger = "=0.5.0"
shellexpand = "=3.1.2"
