[package]
name = "tactics_core"
version = "0.1.0"
edition = "2021"
publish = false

[dependencies]
anyhow = "1"
clap = { version = "4", features = ["derive", "env"] }
image = { version = "0.25", default-features = false, features = ["png"] }
rand = "0.9"
rand_distr = "0.5"
rand_pcg = "0.9"
rand_seeder = "0.4"
serde = { version = "1", features = ["derive"] }
serde_json = "1"
