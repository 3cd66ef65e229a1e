[package]
name = "mesh_router"
version = "0.1.0"
edition = "2021"
publish = false

[dependencies]
crossbeam-queue = "*"
crossbeam-skiplist = "*"
uuid = { version = "*", features = ["v4"] }
rand = "*"
tokio = { version = "*", features = ["sync", "rt-multi-thread", "macros", "time"] }
serde = { version = "*", features = ["derive"] }
log = "*"
pretty_env_logger = "*"
actix = "*"
