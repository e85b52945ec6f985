[package]
name = "ip_roam"
version = "0.1.0"
edition = "2021"
publish = false

[dependencies]
futures = "*"
log = "*"
netlink-packet-core = "*"
netlink-packet-route = "*"
netlink-proto = "*"
pretty_env_logger = "*"
reqwest = { version = "*", default-features = false, features = ["json"] }
rtnetlink = "*"
serde = { version = "*", features = ["derive"] }
serde_yaml = "*"
tokio = { version = "*", features = ["macros", "rt"] }
