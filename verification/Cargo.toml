[package]
name = "pc_remote"
version = "0.1.0"
edition = "2021"
publish = false

[dependencies]
actix-files = "0.6"
actix-web = { version = "4", default-features = false, features = ["macros"] }
futures = "0.3"
image = { version = "0.24", default-features = false, features = ["jpeg"] }
once_cell = "1"
rdev = "0.5"
serde = { version = "1", features = ["derive"] }
