[package]
name = "pqueue"
version = "0.1.0"
edition = "2021"
publish = false

[dependencies]
anyhow = "1"
bytes = "1"
daemonize = "*"
dbus = "*"
libc = "0.2"
log = "0.4"
regex = "1"
serde = { version = "1", features = ["derive"] }
serde_json = "1"
shlex = "1"
simplelog = "*"
structopt = "0.3"
tokio = { version = "1", features = ["full"] }
users = "*"
xdg = "*"
