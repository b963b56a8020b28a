[package]
name = "waper"
version = "0.1.0"
edition = "2021"
publish = false

[dependencies]
anyhow = "*"
async-condvar-fair = "*"
clap = { version = "*", features = ["derive"] }
clap_complete = "*"
futures = "*"
parking_lot = "*"
patricia_tree = "*"
regex = "*"
reqwest = { version = "*", default-features = false }
select = "*"
shlex = "*"
sqlx = { version = "*", default-features = false, features = ["sqlite", "runtime-tokio"] }
tokio = { version = "*", features = ["full"] }
url = "*"
