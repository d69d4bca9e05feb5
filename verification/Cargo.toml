[package]
name = "ibst"
version = "0.1.0"
edition = "2021"
publish = false

[dependencies]
anyhow = "*"
clap = { version = "*", features = ["derive"] }
dynasmrt = "*"
iced-x86 = "*"
nix = { version = "*", features = ["fs", "ioctl", "mman"] }
num_enum = "*"
serde = { version = "*", features = ["derive"] }
serde_json = "*"
