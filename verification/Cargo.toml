[package]
name = "daklak"
version = "0.1.0"
edition = "2021"
publish = false

[dependencies]
anyhow = "=1.0.104"
async-trait = "=0.1.92"
libc = "=0.2.191"
serde = { version = "=1.0.229", features = ["derive"] }
serde_json = "=1.0.154"
toml = "=0.8.23"
tokio = { version = "=1.54.1", features = ["full"] }
tracing = "=0.1.44"
tracing-subscriber = { version = "=0.3.23", features = ["env-filter"] }
evdev = { version = "=0.13.2", features = ["tokio"] }
futures-util = "=0.3.34"
zbus = { version = "=5.19.0", default-features = false, features = ["tokio", "blocking-api"] }
zvariant = "=5.15.1"
ksni = "=0.3.7"
xkbcommon = { version = "=0.8.0", default-features = false }
wayland-client = "=0.31.15"
wayland-protocols-misc = { version = "0.3", features = ["client"] }
